//! The route table: which handler a request reaches.

use vstd::prelude::*;
use vstd::string::*;
use crate::reply::Rejection;
use crate::storage::texts;
use crate::text::text_eq;

verus! {

/// The request methods that the table tells apart.
#[derive(Clone, Copy, Debug, PartialEq, Eq, Structural)]
pub enum Method {
    Get,
    Post,
    /// Any other method. No route accepts it.
    Other,
}

/// The handler that a request reaches.
#[derive(Clone, Debug, PartialEq, Eq)]
pub enum Route {
    /// `GET /`: the landing page.
    Index,
    /// `POST /v1/upload`: a multipart upload.
    Upload,
    /// `GET /v1/image/raw/<path>`: the stored file at this relative path.
    Raw(Vec<String>),
    /// `GET /v1/image/<id>`: the page that wraps the image with this
    /// identifier.
    Image(String),
}

/// What a [`Route`] says.
pub enum RouteView {
    Index,
    Upload,
    Raw(Seq<Seq<char>>),
    Image(Seq<char>),
}

impl View for Route {
    type V = RouteView;

    open spec fn view(&self) -> RouteView {
        match self {
            Route::Index => RouteView::Index,
            Route::Upload => RouteView::Upload,
            Route::Raw(tail) => RouteView::Raw(texts(tail@)),
            Route::Image(id) => RouteView::Image(id@),
        }
    }
}

/// Whether `path` is `/v1/image/raw/` followed by at least one segment.
pub open spec fn is_raw_path(path: Seq<Seq<char>>) -> bool {
    path.len() >= 4 && path[0] == "v1"@ && path[1] == "image"@ && path[2] == "raw"@
}

/// Whether `path` is `/v1/image/` followed by exactly one segment.
pub open spec fn is_image_path(path: Seq<Seq<char>>) -> bool {
    path.len() == 3 && path[0] == "v1"@ && path[1] == "image"@
}

/// Whether `path` is `/v1/upload`.
pub open spec fn is_upload_path(path: Seq<Seq<char>>) -> bool {
    path.len() == 2 && path[0] == "v1"@ && path[1] == "upload"@
}

/// The route table. `path` holds the segments of the request path, the
/// empty ones left out. A request that no row matches is not found.
pub open spec fn route_of(method: Method, path: Seq<Seq<char>>) -> Result<RouteView, Rejection> {
    if method == Method::Get && path.len() == 0 {
        Ok(RouteView::Index)
    } else if method == Method::Post && is_upload_path(path) {
        Ok(RouteView::Upload)
    } else if method == Method::Get && is_raw_path(path) {
        Ok(RouteView::Raw(path.subrange(3, path.len() as int)))
    } else if method == Method::Get && is_image_path(path) {
        Ok(RouteView::Image(path[2]))
    } else {
        Err(Rejection::NotFound)
    }
}

/// Dispatches a request by method and path to exactly one handler, or to
/// none. `segments` holds the segments of the request path in order, the
/// empty ones left out, so that `/` is the empty vector.
pub fn route(method: Method, segments: Vec<String>) -> (found: Result<Route, Rejection>)
    ensures
        match found {
            Ok(r) => route_of(method, texts(segments@)) == Ok::<RouteView, Rejection>(r@),
            Err(err) => route_of(method, texts(segments@)) == Err::<RouteView, Rejection>(err),
        },
{
    let mut segments = segments;
    let ghost path = texts(segments@);
    let n = segments.len();
    match method {
        Method::Get => {
            if n == 0 {
                return Ok(Route::Index);
            }
            if n < 3 {
                return Err(Rejection::NotFound);
            }
            if !text_eq(segments[0].as_str(), "v1") || !text_eq(segments[1].as_str(), "image") {
                return Err(Rejection::NotFound);
            }
            if n == 3 {
                let id = segments.pop().unwrap();
                return Ok(Route::Image(id));
            }
            if text_eq(segments[2].as_str(), "raw") {
                let tail = segments.split_off(3);
                assert(texts(tail@) =~= path.subrange(3, path.len() as int));
                return Ok(Route::Raw(tail));
            }
            Err(Rejection::NotFound)
        },
        Method::Post => {
            if n == 2 && text_eq(segments[0].as_str(), "v1") && text_eq(
                segments[1].as_str(),
                "upload",
            ) {
                Ok(Route::Upload)
            } else {
                Err(Rejection::NotFound)
            }
        },
        Method::Other => Err(Rejection::NotFound),
    }
}

/// No request matches two rows of the table: the four patterns exclude one
/// another.
pub proof fn lemma_routes_are_exclusive(method: Method, path: Seq<Seq<char>>)
    ensures
        !(path.len() == 0 && is_upload_path(path)),
        !(is_upload_path(path) && is_raw_path(path)),
        !(is_upload_path(path) && is_image_path(path)),
        !(is_raw_path(path) && is_image_path(path)),
        route_of(method, path) is Err <==> !(method == Method::Get && (path.len() == 0
            || is_raw_path(path) || is_image_path(path)) || method == Method::Post
            && is_upload_path(path)),
{
}

/// The file that an upload stored under `name` is reached by a raw download
/// of `/v1/image/raw/<name>`.
pub proof fn lemma_stored_name_is_routed(name: Seq<char>)
    ensures
        route_of(Method::Get, seq!["v1"@, "image"@, "raw"@, name]) == Ok::<RouteView, Rejection>(
            RouteView::Raw(seq![name]),
        ),
{
    let path = seq!["v1"@, "image"@, "raw"@, name];
    assert(path.subrange(3, path.len() as int) =~= seq![name]);
}

} // verus!
