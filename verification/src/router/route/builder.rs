//! The builder of a route.

use super::route::Route;
use crate::router::handlers::Handler;
use vstd::prelude::*;

verus! {

/// A route that still takes its handler.
pub struct RouteBuilder {
    pub route: Route,
}

impl RouteBuilder {
    /// A builder that starts from `route`.
    pub fn new(route: Route) -> (builder: RouteBuilder)
        ensures
            builder.route == route,
    {
        RouteBuilder { route }
    }

    /// The route with `handler` as its handler.
    pub fn using(self, handler: Handler) -> (route: Route)
        ensures
            route.method == self.route.method,
            route.path == self.route.path,
            route.handler == handler,
    {
        let mut route = self.route;
        route.handler = handler;
        route
    }
}

} // verus!
