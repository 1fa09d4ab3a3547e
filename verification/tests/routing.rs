use tokio_http2::http::request::{decode, Request};
use tokio_http2::method::Method;
use tokio_http2::router::builder::RouterBuilder;
use tokio_http2::router::handlers::Handler;
use tokio_http2::router::path::RequestPath;
use tokio_http2::router::route::builder::RouteBuilder;
use tokio_http2::router::route::route::Route;
use tokio_http2::router::Router;
use tokio_http2::status::StatusCode;

fn request_for(line: &str) -> Request {
    let mut buf = format!("{} HTTP/1.1\r\n\r\n", line).into_bytes();
    decode(&mut buf, None, None, String::new()).unwrap().unwrap()
}

fn router() -> Router {
    RouterBuilder::new()
        .add(Route::get("/").using(Handler::Registered(0)))
        .add(Route::get(r"/person/\d+").using(Handler::Registered(1)))
        .add(Route::post(r"/person/\d+").using(Handler::Registered(2)))
        .add(Route::get(r"/person/.*").using(Handler::Registered(3)))
        .add(Route::from(Method::Extension("PURGE".to_string()), "/cache").using(Handler::Registered(4)))
        .build()
}

#[test]
fn request_path_is_anchored() {
    let path = RequestPath::new(r"/person/\d+");
    assert!(path.is_match("/person/12"));
    assert!(!path.is_match("/person/12/x"));
    assert!(!path.is_match("x/person/12"));
    assert!(!path.is_match("/person/"));
    assert!(RequestPath::new("/").is_match("/"));
    assert!(!RequestPath::new("/").is_match("//"));
}

#[test]
fn request_path_with_a_refused_pattern_matches_nothing() {
    let path = RequestPath::new("/(");
    assert!(path.matcher().is_none());
    assert_eq!(RequestPath::new("/a+").matcher().unwrap().as_str(), "^/a+$");
    assert!(!path.is_match("/("));
    assert!(!path.is_match(""));
}

#[test]
fn route_builders_set_method_and_default_handler() {
    let routes = vec![
        (Route::options("/a"), Method::Options),
        (Route::get("/a"), Method::Get),
        (Route::post("/a"), Method::Post),
        (Route::put("/a"), Method::Put),
        (Route::delete("/a"), Method::Delete),
        (Route::head("/a"), Method::Head),
        (Route::trace("/a"), Method::Trace),
        (Route::connect("/a"), Method::Connect),
        (Route::patch("/a"), Method::Patch),
    ];
    for (builder, method) in routes {
        assert_eq!(builder.route.method, method);
        assert_eq!(builder.route.handler, Handler::NotImplemented);
        assert!(builder.route.path.is_match("/a"));
        let route = builder.using(Handler::Registered(7));
        assert_eq!(route.method, method);
        assert_eq!(route.handler, Handler::Registered(7));
        assert!(route.path.is_match("/a"));
        assert!(!route.path.is_match("/b"));
    }
    let route = Route::default();
    assert_eq!(route.method, Method::Get);
    assert_eq!(route.handler, Handler::NotImplemented);
    assert!(route.path.is_match("/"));
    let builder = RouteBuilder::new(Route::default());
    assert_eq!(builder.route.method, Method::Get);
}

#[test]
fn matching_routes_keep_their_order() {
    let router = router();
    let matching = router.find_matching_routes("/person/5");
    let handlers: Vec<Handler> = matching.iter().map(|route| route.handler).collect();
    assert_eq!(handlers, vec![Handler::Registered(1), Handler::Registered(2), Handler::Registered(3)]);
    assert!(router.find_matching_routes("/nobody").is_empty());
    assert_eq!(router.find_for_method(&matching, &Method::Post), Some(Handler::Registered(2)));
    assert_eq!(router.find_for_method(&matching, &Method::Get), Some(Handler::Registered(1)));
    assert_eq!(router.find_for_method(&matching, &Method::Put), None);
}

#[test]
fn find_handler_with_method_and_path() {
    let router = router();
    assert_eq!(
        router.find_handler_with_method_and_path(Method::Get, "/person/abc"),
        Some(Handler::Registered(3))
    );
    assert_eq!(
        router.find_handler_with_method_and_path(Method::Extension("PURGE".to_string()), "/cache"),
        Some(Handler::Registered(4))
    );
    assert_eq!(
        router.find_handler_with_method_and_path(Method::Extension("purge".to_string()), "/cache"),
        None
    );
    assert_eq!(router.find_handler_with_method_and_path(Method::Get, "/none"), None);
}

#[test]
fn find_handler_gives_handler_or_status() {
    let router = router();
    assert_eq!(router.find_handler(&request_for("GET /person/1?a=b")), Ok(Handler::Registered(1)));
    assert_eq!(router.find_handler(&request_for("POST /person/1")), Ok(Handler::Registered(2)));
    assert_eq!(router.find_handler(&request_for("PUT /person/1")), Err(StatusCode::MethodNotAllowed));
    assert_eq!(router.find_handler(&request_for("GET /elsewhere")), Err(StatusCode::NotFound));
    let empty = RouterBuilder::new().build();
    assert_eq!(empty.find_handler(&request_for("GET /")), Err(StatusCode::NotFound));
}

#[test]
fn find_handler_with_defaults() {
    let router = router();
    assert_eq!(router.find_handler_with_defaults(&request_for("GET /")), Handler::Registered(0));
    assert_eq!(
        router.find_handler_with_defaults(&request_for("DELETE /")),
        Handler::MethodNotSupported
    );
    assert_eq!(router.find_handler_with_defaults(&request_for("GET /x")), Handler::NotFound);
}
