//! The decoded content of a HEADERS frame: pseudo headers and field lines.
use vstd::prelude::*;
use crate::headers::{appended, Headers};
use crate::pseudo::{opt_view, PseudoHeaders, PseudoView};
use crate::h2::hpack::table::{HName, Header};
use crate::bytes::lower_seq;

verus! {

/// Pseudo headers and regular field lines of a header block.
pub struct Parts {
    pseudo: PseudoHeaders,
    map: Headers,
}

/// The abstract value of `Parts`.
pub type PartsView = (PseudoView, Seq<(Seq<u8>, Seq<u8>)>);

/// The header block after one more decoded field.
pub open spec fn parts_updated(p: PartsView, h: HName, v: Seq<u8>) -> PartsView {
    let ps = p.0;
    match h {
        HName::Authority => ((Some(v), ps.1, ps.2, ps.3, ps.4), p.1),
        HName::Method => ((ps.0, Some(v), ps.2, ps.3, ps.4), p.1),
        HName::Path => ((ps.0, ps.1, Some(v), ps.3, ps.4), p.1),
        HName::Scheme => ((ps.0, ps.1, ps.2, Some(v), ps.4), p.1),
        HName::Status => ((ps.0, ps.1, ps.2, ps.3, Some(v)), p.1),
        HName::Other(name) => (ps, appended(p.1, lower_seq(name), v)),
    }
}

/// The abstract value of an empty header block.
pub open spec fn empty_parts() -> PartsView {
    ((None, None, None, None, None), Seq::empty())
}

impl Parts {
    /// The abstract value: pseudo headers and field lines.
    pub closed spec fn view_parts(&self) -> PartsView {
        (self.pseudo.fields(), self.map.lines())
    }

    /// Creates an empty header block.
    pub fn new() -> (r: Parts)
        ensures
            r.view_parts() == empty_parts(),
    {
        Parts { pseudo: PseudoHeaders::new(), map: Headers::new() }
    }

    /// Sets the pseudo headers.
    pub fn set_pseudo(&mut self, pseudo: PseudoHeaders)
        ensures
            final(self).view_parts() == (pseudo.fields(), old(self).view_parts().1),
    {
        self.pseudo = pseudo;
    }

    /// Sets the regular field lines.
    pub fn set_header_lines(&mut self, headers: Headers)
        ensures
            final(self).view_parts() == (old(self).view_parts().0, headers.lines()),
    {
        self.map = headers;
    }

    /// Whether the block holds no field at all.
    pub fn is_empty(&self) -> (r: bool)
        ensures
            r == (self.view_parts() == empty_parts()),
    {
        let r = self.pseudo.is_empty() && self.map.is_empty();
        proof {
            if self.map.lines().len() == 0 {
                assert(self.map.lines() =~= Seq::<(Seq<u8>, Seq<u8>)>::empty());
            }
        }
        r
    }

    /// Records one decoded field: a pseudo header replaces the previous
    /// value, a regular field is appended.
    pub fn update(&mut self, header: Header, value: Vec<u8>)
        ensures
            final(self).view_parts() == parts_updated(old(self).view_parts(), header@, value@),
    {
        let ghost hv = header@;
        let ghost vv = value@;
        match header {
            Header::Authority => self.pseudo.set_authority(Some(value)),
            Header::Method => self.pseudo.set_method(Some(value)),
            Header::Path => self.pseudo.set_path(Some(value)),
            Header::Scheme => self.pseudo.set_scheme(Some(value)),
            Header::Status => self.pseudo.set_status(Some(value)),
            Header::Other(name) => self.map.append(name.as_slice(), value.as_slice()),
        }
    }

    /// The pseudo headers and the field lines.
    pub fn parts(&self) -> (r: (&PseudoHeaders, &Headers))
        ensures
            (r.0.fields(), r.1.lines()) == self.view_parts(),
    {
        (&self.pseudo, &self.map)
    }

    /// Splits the block into pseudo headers and field lines.
    pub fn into_parts(self) -> (r: (PseudoHeaders, Headers))
        ensures
            (r.0.fields(), r.1.lines()) == self.view_parts(),
    {
        (self.pseudo, self.map)
    }

    /// Returns a copy of this block.
    pub fn copy(&self) -> (r: Parts)
        ensures
            r.view_parts() == self.view_parts(),
    {
        Parts { pseudo: self.pseudo.copy(), map: self.map.copy() }
    }
}

} // verus!
