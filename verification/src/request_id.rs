//! Request identifiers.
//!
//! A request identifier travels with one request across logs and
//! responses. The web layer reads it from a header or generates one; the
//! library only carries the value.

use vstd::prelude::*;

verus! {

/// A request identifier.
#[derive(Debug, Clone)]
pub struct RequestId(pub String);

impl RequestId {
    /// Returns the request ID as a string slice.
    pub fn as_str(&self) -> (r: &str)
        ensures
            r@ == self.0@,
    {
        self.0.as_str()
    }

    /// Consumes self and returns the inner String.
    pub fn into_inner(self) -> (r: String)
        ensures
            r == self.0,
    {
        self.0
    }
}

} // verus!
