//! The root of the query interface.

use vstd::prelude::*;

verus! {

/// The root query.
#[derive(Debug, Clone, Copy, PartialEq, Eq, Structural)]
pub struct Query;

impl Query {
    /// The answer of a service that is up.
    pub fn health(&self) -> (r: &'static str)
        ensures
            r@ == "Hello, World!"@,
    {
        "Hello, World!"
    }
}

} // verus!
