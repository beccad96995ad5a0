//! Bodies read synchronously.
use vstd::prelude::*;

verus! {

/// A message body that fills buffers with its octets.
pub trait Body {
    /// The error of a read.
    type Error;

    /// Writes the next octets of the body into `buf` and returns how many;
    /// 0 once the body is done (or when `buf` is empty).
    fn data(&mut self, buf: &mut [u8]) -> (r: Result<usize, Self::Error>)
        ensures
            r matches Ok(n) ==> n <= old(buf)@.len(),
            final(buf)@.len() == old(buf)@.len(),
    ;
}

} // verus!
