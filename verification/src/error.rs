//! Errors of reading the parts of a request.

use vstd::prelude::*;

verus! {

/// What can be wrong with a part of a request.
#[derive(Copy, Clone, Debug, PartialEq, Eq, Hash, Structural)]
pub enum Error {
    /// The request method is empty.
    Method,
}

} // verus!
