//! Responses, the reasons for which a handler gives up, and the table that
//! turns such a reason into a response.

use vstd::prelude::*;
use vstd::string::*;

verus! {

/// The status of a request that was handled.
pub const STATUS_OK: u16 = 200;

/// The status of an upload over the ceiling.
pub const STATUS_BAD_REQUEST: u16 = 400;

/// The status where no route matches or no file is found.
pub const STATUS_NOT_FOUND: u16 = 404;

/// The status of every other failure.
pub const STATUS_INTERNAL_SERVER_ERROR: u16 = 500;

/// How the body of a response is to be read.
#[derive(Clone, Copy, Debug, PartialEq, Eq, Structural)]
pub enum Media {
    /// An HTML document.
    Html,
    /// Plain text.
    Text,
}

/// Why a handler refused or failed to complete a request.
///
/// Only `NotFound` and `PayloadTooLarge` can be told apart in the response;
/// the others differ in what is logged.
#[derive(Clone, Copy, Debug, PartialEq, Eq, Structural)]
pub enum Rejection {
    /// No route matches the request, or the file asked for does not exist.
    NotFound,
    /// The upload is larger than the ceiling.
    PayloadTooLarge,
    /// The multipart form could not be parsed.
    MalformedForm,
    /// A `file` part declares no content type.
    UndeterminedFileType,
    /// A `file` part declares a content type that is no accepted image type.
    InvalidFileType,
    /// Reading a part's body or the landing page failed.
    ReadError,
    /// Writing a file to the storage directory failed.
    WriteError,
    /// The HTTP layer refused the request for a reason of its own that is
    /// none of the above.
    Unhandled,
}

/// A rejection as the HTTP layer hands it over once no route has answered:
/// one that the layer raised itself, or one that it carried for a handler.
#[derive(Clone, Copy, Debug, PartialEq, Eq, Structural)]
pub struct Refusal {
    /// The layer found no route, or no file.
    pub not_found: bool,
    /// The layer found the payload too large.
    pub payload_too_large: bool,
    /// The rejection that a handler raised, if one did.
    pub raised: Option<Rejection>,
}

/// The reason that a refusal stands for. What the layer found itself comes
/// first, not found before too large; then what a handler raised.
pub open spec fn reason(refusal: Refusal) -> Rejection {
    if refusal.not_found {
        Rejection::NotFound
    } else if refusal.payload_too_large {
        Rejection::PayloadTooLarge
    } else {
        match refusal.raised {
            Some(err) => err,
            None => Rejection::Unhandled,
        }
    }
}

/// A response, before it is handed to the HTTP layer.
#[derive(Clone, Debug, PartialEq, Eq)]
pub struct Response {
    pub status: u16,
    pub media: Media,
    pub body: String,
}

/// What a [`Response`] says.
pub struct ResponseView {
    pub status: u16,
    pub media: Media,
    pub body: Seq<char>,
}

impl View for Response {
    type V = ResponseView;

    open spec fn view(&self) -> ResponseView {
        ResponseView { status: self.status, media: self.media, body: self.body@ }
    }
}

/// The response of a handler that produced the HTML document `body`.
pub open spec fn html_page(body: Seq<char>) -> ResponseView {
    ResponseView { status: STATUS_OK, media: Media::Html, body }
}

/// The response that carries the plain message `body` under `status`.
pub open spec fn plain_message(status: u16, body: Seq<char>) -> ResponseView {
    ResponseView { status, media: Media::Text, body }
}

/// The response to the rejection `err`: 404 where nothing was found, 400
/// where the payload was too large, 500 for every other reason.
pub open spec fn rejection_response(err: Rejection) -> ResponseView {
    match err {
        Rejection::NotFound => plain_message(STATUS_NOT_FOUND, "Not Found"@),
        Rejection::PayloadTooLarge => plain_message(STATUS_BAD_REQUEST, "Payload too large"@),
        _ => plain_message(STATUS_INTERNAL_SERVER_ERROR, "Internal Server Error"@),
    }
}

/// The response that a request ends with, whether its handler completed or
/// gave up.
pub open spec fn final_response(outcome: Result<ResponseView, Rejection>) -> ResponseView {
    match outcome {
        Ok(response) => response,
        Err(err) => rejection_response(err),
    }
}

impl Response {
    /// A 200 response with an HTML body.
    pub fn html(body: String) -> (response: Response)
        ensures
            response@ == html_page(body@),
    {
        Response { status: STATUS_OK, media: Media::Html, body }
    }

    /// A response with a plain-text body.
    pub fn text(status: u16, body: &str) -> (response: Response)
        ensures
            response@ == plain_message(status, body@),
    {
        Response { status, media: Media::Text, body: String::from_str(body) }
    }
}

/// Tells which rejection the HTTP layer handed over.
pub fn reason_of(refusal: Refusal) -> (err: Rejection)
    ensures
        err == reason(refusal),
{
    if refusal.not_found {
        Rejection::NotFound
    } else if refusal.payload_too_large {
        Rejection::PayloadTooLarge
    } else {
        match refusal.raised {
            Some(err) => err,
            None => Rejection::Unhandled,
        }
    }
}

/// Turns a rejection into the response that the client sees. The status is
/// 400 for a payload over the ceiling, although 413 would name it better.
pub fn handle_rejection(err: Rejection) -> (response: Response)
    ensures
        response@ == rejection_response(err),
{
    match err {
        Rejection::NotFound => Response::text(STATUS_NOT_FOUND, "Not Found"),
        Rejection::PayloadTooLarge => Response::text(STATUS_BAD_REQUEST, "Payload too large"),
        _ => Response::text(STATUS_INTERNAL_SERVER_ERROR, "Internal Server Error"),
    }
}

/// The response that a request ends with: the handler's own where it
/// completed, the one for its rejection where it gave up.
pub fn respond(outcome: Result<Response, Rejection>) -> (response: Response)
    ensures
        response@ == final_response(
            match outcome {
                Ok(r) => Ok(r@),
                Err(e) => Err(e),
            },
        ),
{
    match outcome {
        Ok(response) => response,
        Err(err) => handle_rejection(err),
    }
}

/// A rejection never yields a 200 response.
pub proof fn lemma_rejection_is_failure(err: Rejection)
    ensures
        rejection_response(err).status != STATUS_OK,
        rejection_response(err).status == STATUS_NOT_FOUND <==> err == Rejection::NotFound,
        rejection_response(err).status == STATUS_BAD_REQUEST <==> err == Rejection::PayloadTooLarge,
{
}

} // verus!
