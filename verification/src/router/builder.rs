//! The builder of a router.

use super::route::route::Route;
use super::Router;
use vstd::prelude::*;

verus! {

/// The routes of a router that is being built, in the order in which they
/// were added.
#[derive(Debug)]
pub struct RouterBuilder {
    pub routes: Vec<Route>,
}

impl RouterBuilder {
    /// A builder without routes.
    pub fn new() -> (builder: RouterBuilder)
        ensures
            builder.routes@ == Seq::<Route>::empty(),
    {
        RouterBuilder { routes: Vec::new() }
    }

    /// The builder with `route` after its routes.
    pub fn add(self, route: Route) -> (builder: RouterBuilder)
        ensures
            builder.routes@ == self.routes@.push(route),
    {
        let mut builder = self;
        builder.routes.push(route);
        builder
    }

    /// The router of the routes that were added.
    pub fn build(self) -> (router: Router)
        ensures
            router.routes@ == self.routes@,
    {
        Router { routes: self.routes }
    }
}

} // verus!
