//! The router: from the method and the path of a request to a handler.

pub mod builder;
pub mod handlers;
pub mod path;
pub mod route;

use self::handlers::Handler;
use self::route::route::Route;
use crate::http::request::{request_method, slice_bytes, Request, RequestView};
use crate::method::{Method, MethodView};
use crate::status::StatusCode;
use crate::text::text;
use vstd::prelude::*;

verus! {

/// The routes of an application, in the order in which they are tried.
#[derive(Clone, Debug)]
pub struct Router {
    pub routes: Vec<Route>,
}

/// The routes whose path matches `path`, in their order.
pub open spec fn matching_routes(routes: Seq<Route>, path: Seq<char>) -> Seq<Route>
    decreases routes.len(),
{
    if routes.len() == 0 {
        Seq::empty()
    } else if routes.last().path.accepts(path) {
        matching_routes(routes.drop_last(), path).push(routes.last())
    } else {
        matching_routes(routes.drop_last(), path)
    }
}

/// The handler of the first of `routes` that serves `method`, from `from`
/// on.
pub open spec fn handler_for_method(routes: Seq<Route>, method: MethodView, from: int) -> Option<
    Handler,
>
    decreases routes.len() - from + 1,
{
    if from < 0 || from >= routes.len() {
        None
    } else if routes[from].method@ == method {
        Some(routes[from].handler)
    } else {
        handler_for_method(routes, method, from + 1)
    }
}

/// The handler of the first of `routes` whose path matches `path` and which
/// serves `method`.
pub open spec fn route_handler(routes: Seq<Route>, method: MethodView, path: Seq<char>) -> Option<
    Handler,
> {
    handler_for_method(matching_routes(routes, path), method, 0)
}

/// The result of a search for a handler: the handler, or the status to
/// answer with.
pub type HttpResult<T> = Result<T, StatusCode>;

/// The handler of a request among `routes`: that of the first route whose
/// path matches the path of the request and which serves its method. Where
/// no path matches it is `not_found`, and where a path matches but no method
/// it is `wrong_method`.
pub open spec fn found_handler<T>(
    routes: Seq<Route>,
    request: RequestView,
    found: spec_fn(Handler) -> T,
    not_found: T,
    wrong_method: T,
) -> T {
    let matching = matching_routes(routes, text(slice_bytes(request.data, request.path)));
    if matching.len() == 0 {
        not_found
    } else {
        match handler_for_method(matching, request_method(request), 0) {
            Some(handler) => found(handler),
            None => wrong_method,
        }
    }
}

/// The routes that a list of references refers to.
pub open spec fn routes_of(refs: Seq<&Route>) -> Seq<Route> {
    Seq::new(refs.len(), |i: int| *refs[i])
}

impl Router {
    /// The handler of a request: that of the first route whose path matches
    /// its path and which serves its method. Where no path matches it is the
    /// handler that answers 404, and where a path matches but no method, the
    /// one that answers 405.
    pub fn find_handler_with_defaults(&self, request: &Request) -> (handler: Handler)
        requires
            request.wf(),
        ensures
            handler == found_handler(
                self.routes@,
                request@,
                |h: Handler| h,
                Handler::NotFound,
                Handler::MethodNotSupported,
            ),
    {
        let request_path = request.path();
        let matching_routes = self.find_matching_routes(request_path);
        if matching_routes.len() == 0 {
            Handler::NotFound
        } else {
            match self.find_for_method(&matching_routes, &request.method()) {
                Some(handler) => handler,
                None => Handler::MethodNotSupported,
            }
        }
    }

    /// The handler of a request: that of the first route whose path matches
    /// its path and which serves its method. Where no path matches it is the
    /// status `NotFound`, and where a path matches but no method,
    /// `MethodNotAllowed`.
    pub fn find_handler(&self, request: &Request) -> (r: HttpResult<Handler>)
        requires
            request.wf(),
        ensures
            r == found_handler(
                self.routes@,
                request@,
                |h: Handler| Ok::<Handler, StatusCode>(h),
                Err::<Handler, StatusCode>(StatusCode::NotFound),
                Err::<Handler, StatusCode>(StatusCode::MethodNotAllowed),
            ),
    {
        let request_path = request.path();
        let matching_routes = self.find_matching_routes(request_path);
        if matching_routes.len() == 0 {
            Err(StatusCode::NotFound)
        } else {
            match self.find_for_method(&matching_routes, &request.method()) {
                Some(handler) => Ok(handler),
                None => Err(StatusCode::MethodNotAllowed),
            }
        }
    }

    /// The routes whose path matches `request_path`, in their order.
    pub fn find_matching_routes(&self, request_path: &str) -> (matching: Vec<&Route>)
        ensures
            routes_of(matching@) == matching_routes(self.routes@, request_path@),
    {
        let mut matching: Vec<&Route> = Vec::new();
        let mut i: usize = 0;
        proof {
            assert(routes_of(matching@) =~= matching_routes(
                self.routes@.take(0),
                request_path@,
            ));
        }
        while i < self.routes.len()
            invariant
                i <= self.routes@.len(),
                routes_of(matching@) == matching_routes(
                    self.routes@.take(i as int),
                    request_path@,
                ),
            decreases self.routes@.len() - i,
        {
            let ghost before = routes_of(matching@);
            proof {
                let next = self.routes@.take(i + 1);
                assert(next.drop_last() =~= self.routes@.take(i as int));
                assert(next.last() == self.routes@[i as int]);
            }
            if self.routes[i].path.is_match(request_path) {
                matching.push(&self.routes[i]);
                proof {
                    assert(routes_of(matching@) =~= before.push(self.routes@[i as int]));
                }
            }
            i += 1;
        }
        proof {
            assert(self.routes@.take(i as int) =~= self.routes@);
        }
        matching
    }

    /// The handler of the first of `routes` that serves `method`.
    pub fn find_for_method(&self, routes: &Vec<&Route>, method: &Method) -> (r: Option<Handler>)
        ensures
            r == handler_for_method(routes_of(routes@), method@, 0),
    {
        let mut i: usize = 0;
        while i < routes.len()
            invariant
                i <= routes@.len(),
                handler_for_method(routes_of(routes@), method@, 0) == handler_for_method(
                    routes_of(routes@),
                    method@,
                    i as int,
                ),
            decreases routes@.len() - i,
        {
            if routes[i].method == *method {
                return Some(routes[i].handler);
            }
            i += 1;
        }
        None
    }

    /// The handler of the first route whose path matches `path` and which
    /// serves `method`.
    pub fn find_handler_with_method_and_path(&self, method: Method, path: &str) -> (r: Option<
        Handler,
    >)
        ensures
            r == route_handler(self.routes@, method@, path@),
    {
        let matching = self.find_matching_routes(path);
        self.find_for_method(&matching, &method)
    }
}

} // verus!
