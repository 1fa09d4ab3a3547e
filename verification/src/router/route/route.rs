//! A route: the method and the path that it serves, and its handler.

use super::builder::RouteBuilder;
use crate::method::{Method, MethodView};
use crate::router::handlers::Handler;
use crate::router::path::{anchored, regex_compiles, RequestPath};
use vstd::prelude::*;

verus! {

/// A route.
#[derive(Clone, Debug)]
pub struct Route {
    /// The method that the route serves.
    pub method: Method,
    /// The paths that the route serves.
    pub path: RequestPath,
    /// The handler of the requests that the route serves.
    pub handler: Handler,
}

/// The pattern that a route for `path` holds: the anchored path, where that
/// is an accepted pattern.
pub open spec fn route_pattern(path: Seq<char>) -> Option<Seq<char>> {
    if regex_compiles(anchored(path)) {
        Some(anchored(path))
    } else {
        None
    }
}

/// Whether a builder holds the route for `method` and `path` that answers
/// `501 Not Implemented` until a handler is given.
pub open spec fn builds(builder: RouteBuilder, method: MethodView, path: Seq<char>) -> bool {
    &&& builder.route.method@ == method
    &&& builder.route.path.pattern() == route_pattern(path)
    &&& builder.route.handler == Handler::NotImplemented
}

impl Route {
    /// A builder of a route for OPTIONS.
    pub fn options(path: &str) -> (builder: RouteBuilder)
        ensures
            builds(builder, MethodView::Options, path@),
    {
        Route::from(Method::Options, path)
    }

    /// A builder of a route for GET.
    pub fn get(path: &str) -> (builder: RouteBuilder)
        ensures
            builds(builder, MethodView::Get, path@),
    {
        Route::from(Method::Get, path)
    }

    /// A builder of a route for POST.
    pub fn post(path: &str) -> (builder: RouteBuilder)
        ensures
            builds(builder, MethodView::Post, path@),
    {
        Route::from(Method::Post, path)
    }

    /// A builder of a route for PUT.
    pub fn put(path: &str) -> (builder: RouteBuilder)
        ensures
            builds(builder, MethodView::Put, path@),
    {
        Route::from(Method::Put, path)
    }

    /// A builder of a route for DELETE.
    pub fn delete(path: &str) -> (builder: RouteBuilder)
        ensures
            builds(builder, MethodView::Delete, path@),
    {
        Route::from(Method::Delete, path)
    }

    /// A builder of a route for HEAD.
    pub fn head(path: &str) -> (builder: RouteBuilder)
        ensures
            builds(builder, MethodView::Head, path@),
    {
        Route::from(Method::Head, path)
    }

    /// A builder of a route for TRACE.
    pub fn trace(path: &str) -> (builder: RouteBuilder)
        ensures
            builds(builder, MethodView::Trace, path@),
    {
        Route::from(Method::Trace, path)
    }

    /// A builder of a route for CONNECT.
    pub fn connect(path: &str) -> (builder: RouteBuilder)
        ensures
            builds(builder, MethodView::Connect, path@),
    {
        Route::from(Method::Connect, path)
    }

    /// A builder of a route for PATCH.
    pub fn patch(path: &str) -> (builder: RouteBuilder)
        ensures
            builds(builder, MethodView::Patch, path@),
    {
        Route::from(Method::Patch, path)
    }

    /// A builder of a route for `method` and `path`.
    pub fn from(method: Method, path: &str) -> (builder: RouteBuilder)
        ensures
            builds(builder, method@, path@),
    {
        RouteBuilder::new(
            Route { method, path: RequestPath::new(path), handler: Handler::NotImplemented },
        )
    }
}

impl Default for Route {
    fn default() -> (route: Route)
        ensures
            route.method@ == MethodView::Get,
            route.path.pattern() == route_pattern("/"@),
            route.handler == Handler::NotImplemented,
    {
        Route { method: Method::Get, path: RequestPath::new("/"), handler: Handler::NotImplemented }
    }
}

} // verus!
