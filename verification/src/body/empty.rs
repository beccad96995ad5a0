//! The empty body.
use vstd::prelude::*;
use core::convert::Infallible;
use crate::body::sync_impl::Body;

verus! {

/// A body without octets.
pub struct EmptyBody;

impl EmptyBody {
    /// Creates an empty body.
    pub fn new() -> (r: EmptyBody) {
        EmptyBody
    }
}

impl Default for EmptyBody {
    fn default() -> (r: EmptyBody) {
        EmptyBody::new()
    }
}

impl Body for EmptyBody {
    type Error = Infallible;

    fn data(&mut self, buf: &mut [u8]) -> (r: Result<usize, Infallible>)
        ensures
            r == Ok::<usize, Infallible>(0),
            final(buf)@ == old(buf)@,
    {
        Ok(0)
    }
}

} // verus!
