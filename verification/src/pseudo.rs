//! HTTP/2 pseudo-header fields (`:authority`, `:method`, `:path`, `:scheme`,
//! `:status`).
use vstd::prelude::*;
use crate::bytes::copy_bytes;

verus! {

/// The pseudo-header fields of a request or response.
#[derive(Clone, PartialEq, Eq)]
pub struct PseudoHeaders {
    authority: Option<Vec<u8>>,
    method: Option<Vec<u8>>,
    path: Option<Vec<u8>>,
    scheme: Option<Vec<u8>>,
    status: Option<Vec<u8>>,
}

/// The abstract value of an optional field.
pub open spec fn opt_view(o: Option<Vec<u8>>) -> Option<Seq<u8>> {
    match o {
        Some(v) => Some(v@),
        None => None,
    }
}

/// Abstract pseudo headers: authority, method, path, scheme, status.
pub type PseudoView = (Option<Seq<u8>>, Option<Seq<u8>>, Option<Seq<u8>>, Option<Seq<u8>>, Option<Seq<u8>>);

fn opt_ref(o: &Option<Vec<u8>>) -> (r: Option<&[u8]>)
    ensures
        r is Some <==> o is Some,
        r matches Some(s) ==> s@ == o->0@,
{
    match o {
        Some(v) => Some(v.as_slice()),
        None => None,
    }
}

fn opt_copy(o: &Option<Vec<u8>>) -> (r: Option<Vec<u8>>)
    ensures
        opt_view(r) == opt_view(*o),
{
    match o {
        Some(v) => Some(copy_bytes(v.as_slice())),
        None => None,
    }
}

impl PseudoHeaders {
    /// The field values, in the order authority, method, path, scheme, status.
    pub closed spec fn fields(&self) -> PseudoView {
        (opt_view(self.authority), opt_view(self.method), opt_view(self.path), opt_view(self.scheme), opt_view(self.status))
    }

    /// Creates pseudo headers with no field set.
    pub fn new() -> (r: PseudoHeaders)
        ensures
            r.fields() == (None::<Seq<u8>>, None::<Seq<u8>>, None::<Seq<u8>>, None::<Seq<u8>>, None::<Seq<u8>>),
    {
        PseudoHeaders { authority: None, method: None, path: None, scheme: None, status: None }
    }

    /// Returns a copy of these pseudo headers.
    pub fn copy(&self) -> (r: PseudoHeaders)
        ensures
            r.fields() == self.fields(),
    {
        PseudoHeaders {
            authority: opt_copy(&self.authority),
            method: opt_copy(&self.method),
            path: opt_copy(&self.path),
            scheme: opt_copy(&self.scheme),
            status: opt_copy(&self.status),
        }
    }

    /// Whether no field is set.
    pub fn is_empty(&self) -> (r: bool)
        ensures
            r == (self.fields().0 is None && self.fields().1 is None && self.fields().2 is None
                && self.fields().3 is None && self.fields().4 is None),
    {
        self.authority.is_none() && self.method.is_none() && self.path.is_none()
            && self.scheme.is_none() && self.status.is_none()
    }

    /// The `:authority` field.
    pub fn authority(&self) -> (r: Option<&[u8]>)
        ensures
            r is Some <==> self.fields().0 is Some,
            r matches Some(s) ==> s@ == self.fields().0->0,
    {
        opt_ref(&self.authority)
    }

    /// The `:method` field.
    pub fn method(&self) -> (r: Option<&[u8]>)
        ensures
            r is Some <==> self.fields().1 is Some,
            r matches Some(s) ==> s@ == self.fields().1->0,
    {
        opt_ref(&self.method)
    }

    /// The `:path` field.
    pub fn path(&self) -> (r: Option<&[u8]>)
        ensures
            r is Some <==> self.fields().2 is Some,
            r matches Some(s) ==> s@ == self.fields().2->0,
    {
        opt_ref(&self.path)
    }

    /// The `:scheme` field.
    pub fn scheme(&self) -> (r: Option<&[u8]>)
        ensures
            r is Some <==> self.fields().3 is Some,
            r matches Some(s) ==> s@ == self.fields().3->0,
    {
        opt_ref(&self.scheme)
    }

    /// The `:status` field.
    pub fn status(&self) -> (r: Option<&[u8]>)
        ensures
            r is Some <==> self.fields().4 is Some,
            r matches Some(s) ==> s@ == self.fields().4->0,
    {
        opt_ref(&self.status)
    }

    /// Sets the `:authority` field.
    pub fn set_authority(&mut self, v: Option<Vec<u8>>)
        ensures
            final(self).fields() == (opt_view(v), old(self).fields().1, old(self).fields().2, old(self).fields().3, old(self).fields().4),
    {
        self.authority = v;
    }

    /// Sets the `:method` field.
    pub fn set_method(&mut self, v: Option<Vec<u8>>)
        ensures
            final(self).fields() == (old(self).fields().0, opt_view(v), old(self).fields().2, old(self).fields().3, old(self).fields().4),
    {
        self.method = v;
    }

    /// Sets the `:path` field.
    pub fn set_path(&mut self, v: Option<Vec<u8>>)
        ensures
            final(self).fields() == (old(self).fields().0, old(self).fields().1, opt_view(v), old(self).fields().3, old(self).fields().4),
    {
        self.path = v;
    }

    /// Sets the `:scheme` field.
    pub fn set_scheme(&mut self, v: Option<Vec<u8>>)
        ensures
            final(self).fields() == (old(self).fields().0, old(self).fields().1, old(self).fields().2, opt_view(v), old(self).fields().4),
    {
        self.scheme = v;
    }

    /// Sets the `:status` field.
    pub fn set_status(&mut self, v: Option<Vec<u8>>)
        ensures
            final(self).fields() == (old(self).fields().0, old(self).fields().1, old(self).fields().2, old(self).fields().3, opt_view(v)),
    {
        self.status = v;
    }
}

} // verus!
