//! The image types that an upload may declare, and the file extension that
//! each one is stored under.

use vstd::prelude::*;
use vstd::string::*;
use crate::text::text_eq;

verus! {

/// An accepted image type. The table from MIME type to extension is closed:
/// a new format is a new variant here.
#[derive(Clone, Copy, Debug, PartialEq, Eq, Structural)]
pub enum ImageKind {
    Jpeg,
    Png,
}

impl ImageKind {
    /// The MIME type that selects this kind.
    pub open spec fn mime(self) -> Seq<char> {
        match self {
            ImageKind::Jpeg => seq!['i', 'm', 'a', 'g', 'e', '/', 'j', 'p', 'e', 'g'],
            ImageKind::Png => seq!['i', 'm', 'a', 'g', 'e', '/', 'p', 'n', 'g'],
        }
    }

    /// The extension of the files stored for this kind, without the dot.
    pub open spec fn ext(self) -> Seq<char> {
        match self {
            ImageKind::Jpeg => seq!['j', 'p', 'g'],
            ImageKind::Png => seq!['p', 'n', 'g'],
        }
    }

    /// The kind that a MIME type selects, if it selects one.
    pub open spec fn of_mime(mime: Seq<char>) -> Option<ImageKind> {
        if mime == ImageKind::Jpeg.mime() {
            Some(ImageKind::Jpeg)
        } else if mime == ImageKind::Png.mime() {
            Some(ImageKind::Png)
        } else {
            None
        }
    }

    /// The MIME type of this kind: `image/jpeg` or `image/png`.
    pub fn mime_type(&self) -> (text: &'static str)
        ensures
            text@ == self.mime(),
    {
        proof {
            reveal_strlit("image/jpeg");
            reveal_strlit("image/png");
        }
        match self {
            ImageKind::Jpeg => "image/jpeg",
            ImageKind::Png => "image/png",
        }
    }

    /// The extension of this kind: `jpg` or `png`.
    pub fn extension(&self) -> (text: &'static str)
        ensures
            text@ == self.ext(),
    {
        proof {
            reveal_strlit("jpg");
            reveal_strlit("png");
        }
        match self {
            ImageKind::Jpeg => "jpg",
            ImageKind::Png => "png",
        }
    }

    /// Looks a declared MIME type up in the table. The match is exact: no
    /// parameters, no other spelling.
    pub fn from_mime(mime: &str) -> (kind: Option<ImageKind>)
        ensures
            kind == ImageKind::of_mime(mime@),
    {
        if text_eq(mime, ImageKind::Jpeg.mime_type()) {
            Some(ImageKind::Jpeg)
        } else if text_eq(mime, ImageKind::Png.mime_type()) {
            Some(ImageKind::Png)
        } else {
            None
        }
    }
}

} // verus!
