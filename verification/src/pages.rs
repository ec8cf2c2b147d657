//! The two HTML documents that the service writes itself: the landing page
//! and the page that wraps one image.

use vstd::prelude::*;
use vstd::string::*;
use crate::reply::{html_page, Rejection, Response, ResponseView};
use crate::text::{contains_text, occurs_at};

verus! {

/// The landing page that is served while the storage root holds none.
pub const FALLBACK_PAGE: &'static str =
    "<html>\n    <head>\n    <title> uimage.host </title>\n    </head>\n    <body>\n    <center>\n    <h1> uimage.host is free image host server done in Rust </h1>\n    </center>\n    </body>\n    </html>";

/// What the caller found where the landing page file would be.
#[derive(Clone, Debug, PartialEq, Eq)]
pub enum LandingPage {
    /// There is no such file.
    Missing,
    /// The file exists, with these contents.
    Present(String),
    /// The file exists and could not be read.
    Unreadable,
}

/// The outcome of a request for the landing page.
pub open spec fn landing_outcome(page: LandingPage) -> Result<ResponseView, Rejection> {
    match page {
        LandingPage::Missing => Ok(html_page(FALLBACK_PAGE@)),
        LandingPage::Present(contents) => Ok(html_page(contents@)),
        LandingPage::Unreadable => Err(Rejection::ReadError),
    }
}

/// Serves the landing page: the file's contents as they are where it exists,
/// the fallback document where it does not. A file that exists and cannot be
/// read is a read error, which the caller answers like any other rejection.
pub fn index(page: LandingPage) -> (outcome: Result<Response, Rejection>)
    ensures
        match outcome {
            Ok(response) => landing_outcome(page) == Ok::<ResponseView, Rejection>(response@),
            Err(err) => landing_outcome(page) == Err::<ResponseView, Rejection>(err),
        },
{
    match page {
        LandingPage::Missing => Ok(Response::html(String::from_str(FALLBACK_PAGE))),
        LandingPage::Present(contents) => Ok(Response::html(contents)),
        LandingPage::Unreadable => Err(Rejection::ReadError),
    }
}

/// The fallback document names the service.
pub proof fn lemma_fallback_names_the_host()
    ensures
        contains_text(FALLBACK_PAGE@, "uimage.host"@),
{
    reveal_strlit("<html>\n    <head>\n    <title> uimage.host </title>\n    </head>\n    <body>\n    <center>\n    <h1> uimage.host is free image host server done in Rust </h1>\n    </center>\n    </body>\n    </html>");
    reveal_strlit("uimage.host");
    let hay = FALLBACK_PAGE@;
    let needle = "uimage.host"@;
    assert(hay.subrange(30, 30 + needle.len() as int) =~= needle);
    assert(occurs_at(hay, needle, 30));
}

/// The document that shows the image `id`: a single `img` element whose
/// `src` is the storage directory, a slash, and the identifier.
pub open spec fn image_document(dir: Seq<char>, id: Seq<char>) -> Seq<char> {
    "<html><img src='"@ + dir + "/"@ + id + "'/></html>"@
}

/// The page that wraps the image `id`, which lies in the directory that
/// `dir` names. Whether such an image exists is not looked at: the page comes
/// out the same, and a browser shows a broken image.
pub fn image(dir: &str, id: &str) -> (response: Response)
    ensures
        response@ == html_page(image_document(dir@, id@)),
{
    let mut body = String::from_str("<html><img src='");
    body.append(dir);
    body.append("/");
    body.append(id);
    body.append("'/></html>");
    Response::html(body)
}

/// The page for `id` holds `id` inside the quotes of the `src` attribute of
/// its `img` element, directly after the directory and a slash, whatever
/// `id` is.
pub proof fn lemma_image_page_embeds_id(dir: Seq<char>, id: Seq<char>)
    ensures
        image_document(dir, id) == "<html><img src='"@ + (dir + "/"@ + id) + "'/></html>"@,
        occurs_at(image_document(dir, id), id, 17 + dir.len() as int),
        contains_text(image_document(dir, id), id),
        html_page(image_document(dir, id)).status == 200,
{
    reveal_strlit("<html><img src='");
    reveal_strlit("/");
    reveal_strlit("'/></html>");
    let doc = image_document(dir, id);
    let at: int = 17 + dir.len() as int;
    assert(doc.subrange(at, at + id.len() as int) =~= id);
}

} // verus!
