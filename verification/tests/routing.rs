use uimage::reply::{handle_rejection, Rejection};
use uimage::router::{route, Method, Route};

fn segments(path: &str) -> Vec<String> {
    path.split('/').filter(|s| !s.is_empty()).map(|s| s.to_string()).collect()
}

#[test]
fn root_is_the_landing_page() {
    assert_eq!(route(Method::Get, segments("/")), Ok(Route::Index));
    assert_eq!(route(Method::Get, Vec::new()), Ok(Route::Index));
}

#[test]
fn upload_takes_post_only() {
    assert_eq!(route(Method::Post, segments("/v1/upload")), Ok(Route::Upload));
    assert_eq!(route(Method::Get, segments("/v1/upload")), Err(Rejection::NotFound));
    assert_eq!(route(Method::Other, segments("/v1/upload")), Err(Rejection::NotFound));
    assert_eq!(route(Method::Post, segments("/v1/upload/more")), Err(Rejection::NotFound));
    assert_eq!(route(Method::Post, segments("/v1")), Err(Rejection::NotFound));
    assert_eq!(route(Method::Post, segments("/v2/upload")), Err(Rejection::NotFound));
    assert_eq!(route(Method::Post, segments("/v1/uploads")), Err(Rejection::NotFound));
}

#[test]
fn raw_download_keeps_the_relative_path() {
    assert_eq!(
        route(Method::Get, segments("/v1/image/raw/abc.png")),
        Ok(Route::Raw(vec!["abc.png".to_string()]))
    );
    assert_eq!(
        route(Method::Get, segments("/v1/image/raw/a/b/c.jpg")),
        Ok(Route::Raw(vec!["a".to_string(), "b".to_string(), "c.jpg".to_string()]))
    );
    assert_eq!(route(Method::Post, segments("/v1/image/raw/abc.png")), Err(Rejection::NotFound));
}

#[test]
fn image_page_takes_one_identifier() {
    assert_eq!(route(Method::Get, segments("/v1/image/abc")), Ok(Route::Image("abc".to_string())));
    assert_eq!(route(Method::Get, segments("/v1/image/raw")), Ok(Route::Image("raw".to_string())));
    assert_eq!(route(Method::Get, segments("/v1/image")), Err(Rejection::NotFound));
    assert_eq!(route(Method::Get, segments("/v1/image/abc/def")), Err(Rejection::NotFound));
    assert_eq!(route(Method::Post, segments("/v1/image/abc")), Err(Rejection::NotFound));
    assert_eq!(route(Method::Other, segments("/v1/image/abc")), Err(Rejection::NotFound));
}

#[test]
fn everything_else_is_not_found() {
    assert_eq!(route(Method::Post, segments("/")), Err(Rejection::NotFound));
    assert_eq!(route(Method::Other, segments("/")), Err(Rejection::NotFound));
    assert_eq!(route(Method::Get, segments("/v1")), Err(Rejection::NotFound));
    assert_eq!(route(Method::Get, segments("/index.html")), Err(Rejection::NotFound));
    assert_eq!(route(Method::Get, segments("/v2/image/abc")), Err(Rejection::NotFound));
    assert_eq!(route(Method::Get, segments("/v1/images/abc")), Err(Rejection::NotFound));
    assert_eq!(route(Method::Get, segments("/v1/images/raw/abc")), Err(Rejection::NotFound));
    assert_eq!(route(Method::Get, segments("/V1/image/abc")), Err(Rejection::NotFound));
    let response = handle_rejection(route(Method::Get, segments("/nowhere")).unwrap_err());
    assert_eq!(response.status, 404);
    assert_eq!(response.body, "Not Found");
}
