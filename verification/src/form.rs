//! The parts of a multipart form, as far as the upload handler looks at
//! them, and the checks that it makes on each.

use vstd::prelude::*;
use vstd::string::*;
use crate::media::ImageKind;
use crate::reply::Rejection;
use crate::text::text_eq;

verus! {

/// The ceiling on the size of an upload, in bytes.
pub const MAX_UPLOAD_BYTES: u64 = 5_000_000;

/// The field name of the parts that are stored. Parts under any other name
/// are passed over.
pub const FILE_FIELD: &'static str = "file";

/// What a part of the form declares about itself.
#[derive(Clone, Debug, PartialEq, Eq)]
pub struct PartHeader {
    /// The field name.
    pub name: String,
    /// The declared MIME type, if the part declares one.
    pub content_type: Option<String>,
}

/// What a [`PartHeader`] says.
pub struct PartHeaderView {
    pub name: Seq<char>,
    pub content_type: Option<Seq<char>>,
}

impl View for PartHeader {
    type V = PartHeaderView;

    open spec fn view(&self) -> PartHeaderView {
        PartHeaderView {
            name: self.name@,
            content_type: match self.content_type {
                Some(t) => Some(t@),
                None => None,
            },
        }
    }
}

/// What a vector of part headers says.
pub open spec fn headers_view(headers: Seq<PartHeader>) -> Seq<PartHeaderView> {
    headers.map_values(|h: PartHeader| h@)
}

/// What a vector of chunks holds.
pub open spec fn chunks_view(chunks: Seq<Vec<u8>>) -> Seq<Seq<u8>> {
    chunks.map_values(|c: Vec<u8>| c@)
}

/// Whether a part is one to store.
pub open spec fn is_file_part(header: PartHeaderView) -> bool {
    header.name == FILE_FIELD@
}

/// Whether an upload of the declared length is let in: the length must be
/// declared and must not exceed the ceiling.
pub open spec fn admission(content_length: Option<u64>) -> Result<(), Rejection> {
    match content_length {
        None => Err(Rejection::MalformedForm),
        Some(n) => if n <= MAX_UPLOAD_BYTES {
            Ok(())
        } else {
            Err(Rejection::PayloadTooLarge)
        },
    }
}

/// The kind that a part is stored as, by its declared content type: none
/// declared leaves the type undetermined, one outside the table is invalid.
pub open spec fn classification(content_type: Option<Seq<char>>) -> Result<ImageKind, Rejection> {
    match content_type {
        None => Err(Rejection::UndeterminedFileType),
        Some(mime) => match ImageKind::of_mime(mime) {
            Some(kind) => Ok(kind),
            None => Err(Rejection::InvalidFileType),
        },
    }
}

/// The table read both ways: a part is stored as `kind` exactly where it
/// declares the MIME type of `kind`.
pub proof fn lemma_classification(content_type: Option<Seq<char>>, kind: ImageKind)
    ensures
        classification(content_type) == Ok::<ImageKind, Rejection>(kind) <==> content_type
            == Some(kind.mime()),
{
}

/// The first part at or after `from` that is one to store.
pub open spec fn next_file_part(headers: Seq<PartHeaderView>, from: int) -> Option<int>
    decreases headers.len() - from,
{
    if from < 0 || from >= headers.len() {
        None
    } else if is_file_part(headers[from]) {
        Some(from)
    } else {
        next_file_part(headers, from + 1)
    }
}

/// What [`next_file_part`] finds: the least index from `from` on whose part
/// is one to store, and nothing exactly where there is no such part.
pub proof fn lemma_next_file_part(headers: Seq<PartHeaderView>, from: int)
    requires
        0 <= from,
    ensures
        match next_file_part(headers, from) {
            Some(i) => from <= i < headers.len() && is_file_part(headers[i]) && forall|j: int|
                from <= j < i ==> !is_file_part(#[trigger] headers[j]),
            None => forall|j: int|
                from <= j < headers.len() ==> !is_file_part(#[trigger] headers[j]),
        },
    decreases headers.len() - from,
{
    if from < headers.len() && !is_file_part(headers[from]) {
        lemma_next_file_part(headers, from + 1);
    }
}

impl PartHeader {
    pub fn new(name: String, content_type: Option<String>) -> (header: PartHeader)
        ensures
            header@ == (PartHeaderView {
                name: name@,
                content_type: match content_type {
                    Some(t) => Some(t@),
                    None => None,
                },
            }),
    {
        PartHeader { name, content_type }
    }

    /// Whether this part is one to store: its field name is `file`.
    pub fn is_file(&self) -> (yes: bool)
        ensures
            yes == is_file_part(self@),
    {
        text_eq(self.name.as_str(), FILE_FIELD)
    }

    /// Validates the declared content type and gives the kind to store the
    /// part as.
    pub fn classify(&self) -> (kind: Result<ImageKind, Rejection>)
        ensures
            kind == classification(self@.content_type),
    {
        match &self.content_type {
            None => Err(Rejection::UndeterminedFileType),
            Some(mime) => match ImageKind::from_mime(mime.as_str()) {
                Some(kind) => Ok(kind),
                None => Err(Rejection::InvalidFileType),
            },
        }
    }
}

/// Lets an upload in by its declared length.
pub fn check_length(content_length: Option<u64>) -> (admitted: Result<(), Rejection>)
    ensures
        admitted == admission(content_length),
{
    match content_length {
        None => Err(Rejection::MalformedForm),
        Some(n) => if n <= MAX_UPLOAD_BYTES {
            Ok(())
        } else {
            Err(Rejection::PayloadTooLarge)
        },
    }
}

/// Finds the first part at or after `from` whose field name is `file`.
pub fn find_file_part(headers: &Vec<PartHeader>, from: usize) -> (found: Option<usize>)
    ensures
        match found {
            Some(i) => next_file_part(headers_view(headers@), from as int) == Some(i as int),
            None => next_file_part(headers_view(headers@), from as int) == None::<int>,
        },
{
    let ghost hs = headers_view(headers@);
    let mut i: usize = from;
    while i < headers.len()
        invariant
            from <= i,
            hs == headers_view(headers@),
            next_file_part(hs, from as int) == next_file_part(hs, i as int),
        decreases headers.len() - i,
    {
        if headers[i].is_file() {
            return Some(i);
        }
        i += 1;
    }
    None
}

} // verus!
