//! HPACK decoder: turns header block fragments into pseudo headers and field
//! lines, maintaining the dynamic table.
use vstd::prelude::*;
use crate::bytes::{copy_bytes, push_bytes};
use crate::h2::error::{ErrorCode, H2Error};
use crate::h2::hpack::representation::{
    parse_repr, repr_at, lemma_repr_advances, Name, NameV, Parsed, ReprRes, ReprV, Representation,
};
use crate::h2::hpack::table::{
    evict, hname_len, search_name, search_pair, total_size, DynamicTable, HName, Header, TableSearcher,
};
use crate::h2::parts::{empty_parts, parts_updated, Parts, PartsView};

verus! {

/// The decoder's abstract state: dynamic table entries, table size limit,
/// header block decoded so far, its accumulated size, and the header list
/// size limit.
pub type DecView = (Seq<(HName, Seq<u8>)>, nat, PartsView, nat, nat);

fn compression_error() -> (r: H2Error)
    ensures
        r == H2Error::ConnectionError(ErrorCode::CompressionError),
{
    H2Error::ConnectionError(ErrorCode::CompressionError)
}

/// The size a field line counts for in the header list size.
pub open spec fn line_size(h: HName, v: Seq<u8>) -> nat {
    hname_len(h) + v.len() + 32
}

/// Adds a field to the block, and to the dynamic table when `index` is set:
/// a block larger than the header list size limit is a CONNECT_ERROR; a table
/// whose size would not fit a `usize` is a compression error.
pub open spec fn add_line(st: DecView, h: HName, v: Seq<u8>, index: bool) -> Result<DecView, H2Error> {
    let hs = st.3 + line_size(h, v);
    if hs > st.4 {
        Err(H2Error::ConnectionError(ErrorCode::ConnectError))
    } else if index && total_size(st.0) + line_size(h, v) > usize::MAX {
        Err(H2Error::ConnectionError(ErrorCode::CompressionError))
    } else {
        Ok((
            if index { evict(seq![(h, v)] + st.0, st.1) } else { st.0 },
            st.1,
            parts_updated(st.2, h, v),
            hs,
            st.4,
        ))
    }
}

/// The header name a literal field refers to.
pub open spec fn name_of(st: DecView, n: NameV) -> Option<HName> {
    match n {
        NameV::Index(i) => search_name(st.0, i as int),
        NameV::Literal(s) => Some(HName::Other(s)),
    }
}

/// The effect of one representation on the decoder state.
pub open spec fn apply_repr(st: DecView, r: ReprV) -> Result<DecView, H2Error> {
    match r {
        ReprV::Indexed(i) => match search_pair(st.0, i as int) {
            Some(p) => add_line(st, p.0, p.1, false),
            None => Err(H2Error::ConnectionError(ErrorCode::CompressionError)),
        },
        ReprV::WithIndexing(n, v) => match name_of(st, n) {
            Some(h) => add_line(st, h, v, true),
            None => Err(H2Error::ConnectionError(ErrorCode::CompressionError)),
        },
        ReprV::WithoutIndexing(n, v) => match name_of(st, n) {
            Some(h) => add_line(st, h, v, false),
            None => Err(H2Error::ConnectionError(ErrorCode::CompressionError)),
        },
        ReprV::NeverIndexed(n, v) => match name_of(st, n) {
            Some(h) => add_line(st, h, v, false),
            None => Err(H2Error::ConnectionError(ErrorCode::CompressionError)),
        },
        ReprV::SizeUpdate(m) => Ok((evict(st.0, m), m, st.2, st.3, st.4)),
    }
}

/// Decodes the representations of `bs` from `pos` on, stopping where a
/// representation is cut off: the final state and where the undecoded rest
/// starts.
pub open spec fn run_reprs(st: DecView, bs: Seq<u8>, pos: int) -> Result<(DecView, int), H2Error>
    decreases bs.len() - pos,
{
    match repr_at(bs, pos) {
        ReprRes::Done(r, p) => if p <= pos || p > bs.len() {
            Err(H2Error::ConnectionError(ErrorCode::CompressionError))
        } else {
            match apply_repr(st, r) {
                Ok(st2) => run_reprs(st2, bs, p),
                Err(e) => Err(e),
            }
        },
        ReprRes::Incomplete => Ok((st, pos)),
        ReprRes::Error => Err(H2Error::ConnectionError(ErrorCode::CompressionError)),
    }
}

/// The header block being decoded and its accumulated size.
struct HeaderLines {
    parts: Parts,
    header_size: usize,
}

/// Decoder of HPACK header blocks.
pub struct HpackDecoder {
    header_list_size: usize,
    table: DynamicTable,
    lines: HeaderLines,
    holder: Vec<u8>,
}

impl HpackDecoder {
    /// The abstract state.
    pub closed spec fn state(&self) -> DecView {
        (self.table.entries(), self.table.max(), self.lines.parts.view_parts(), self.lines.header_size as nat,
            self.header_list_size as nat)
    }

    /// Octets of a representation cut off at the end of the last fragment.
    pub closed spec fn pending(&self) -> Seq<u8> {
        self.holder@
    }

    /// The dynamic table is well formed.
    pub closed spec fn wf(&self) -> bool {
        self.table.wf()
    }

    /// Creates a decoder with the given dynamic table size and header list
    /// size limit.
    pub fn with_max_size(header_table_size: usize, max_header_list_size: usize) -> (r: HpackDecoder)
        ensures
            r.wf(),
            r.state() == (Seq::<(HName, Seq<u8>)>::empty(), header_table_size as nat, empty_parts(), 0nat,
                max_header_list_size as nat),
            r.pending() == Seq::<u8>::empty(),
    {
        HpackDecoder {
            header_list_size: max_header_list_size,
            table: DynamicTable::with_max_size(header_table_size),
            lines: HeaderLines { parts: Parts::new(), header_size: 0 },
            holder: Vec::new(),
        }
    }

    /// The dynamic table.
    pub fn table(&self) -> (r: &DynamicTable)
        ensures
            r.entries() == self.state().0,
            r.max() == self.state().1,
    {
        &self.table
    }

    /// Decodes one fragment of a header block; a representation cut off at
    /// its end is completed by the next fragment.
    pub fn decode(&mut self, buf: &[u8]) -> (r: Result<(), H2Error>)
        requires
            old(self).wf(),
        ensures
            final(self).wf(),
            match run_reprs(old(self).state(), old(self).pending() + buf@, 0) {
                Ok((st, p)) => r is Ok && final(self).state() == st
                    && final(self).pending() == (old(self).pending() + buf@).subrange(p, (old(self).pending() + buf@).len() as int),
                Err(e) => r == Err::<(), H2Error>(e),
            },
    {
        let mut data = copy_bytes(self.holder.as_slice());
        push_bytes(&mut data, buf);
        let ghost all = data@;
        let ghost start = self.state();
        let mut pos: usize = 0;
        loop
            invariant
                self.wf(),
                data@ == all,
                all == old(self).pending() + buf@,
                start == old(self).state(),
                pos <= all.len(),
                run_reprs(start, all, 0) == run_reprs(self.state(), all, pos as int),
            decreases all.len() - pos,
        {
            proof {
                lemma_repr_advances(all, pos as int);
            }
            match parse_repr(data.as_slice(), pos) {
                Parsed::Done(repr, p) => {
                    let res = self.update(repr);
                    match res {
                        Ok(()) => {},
                        Err(e) => return Err(e),
                    }
                    pos = p;
                },
                Parsed::Incomplete => {
                    let rest = copy_bytes(&data.as_slice()[pos..data.len()]);
                    self.holder = rest;
                    return Ok(());
                },
                Parsed::Error => return Err(compression_error()),
            }
        }
    }

    /// Ends a header block: returns the decoded block and starts a new one;
    /// a representation left incomplete is a compression error.
    pub fn finish(&mut self) -> (r: Result<Parts, H2Error>)
        requires
            old(self).wf(),
        ensures
            final(self).wf(),
            old(self).pending().len() > 0 ==> r == Err::<Parts, H2Error>(H2Error::ConnectionError(ErrorCode::CompressionError))
                && final(self).state() == old(self).state() && final(self).pending() == old(self).pending(),
            old(self).pending().len() == 0 ==> (r matches Ok(p) && p.view_parts() == old(self).state().2
                && final(self).state() == (old(self).state().0, old(self).state().1, empty_parts(), 0nat, old(self).state().4)
                && final(self).pending() == old(self).pending()),
    {
        if self.holder.len() != 0 {
            return Err(compression_error());
        }
        self.lines.header_size = 0;
        let mut parts = Parts::new();
        std::mem::swap(&mut parts, &mut self.lines.parts);
        Ok(parts)
    }

    /// Sets the header list size limit.
    pub fn update_header_list_size(&mut self, size: usize)
        ensures
            final(self).wf() == old(self).wf(),
            final(self).state() == (old(self).state().0, old(self).state().1, old(self).state().2, old(self).state().3, size as nat),
            final(self).pending() == old(self).pending(),
    {
        self.header_list_size = size;
    }

    /// Applies one representation to the table and the header block.
    fn update(&mut self, repr: Representation) -> (r: Result<(), H2Error>)
        requires
            old(self).wf(),
        ensures
            final(self).wf(),
            final(self).pending() == old(self).pending(),
            match apply_repr(old(self).state(), repr@) {
                Ok(st) => r is Ok && final(self).state() == st,
                Err(e) => r == Err::<(), H2Error>(e),
            },
    {
        match repr {
            Representation::Indexed { index } => self.update_indexed(index),
            Representation::LiteralWithIndexing { name, value } => self.update_literal_with_indexing(name, value),
            Representation::LiteralWithoutIndexing { name, value } => self.update_literal_without_indexing(name, value),
            Representation::LiteralNeverIndexed { name, value } => self.update_literal_never_indexing(name, value),
            Representation::SizeUpdate { max_size } => {
                self.table.update_size(max_size);
                Ok(())
            },
        }
    }

    fn update_indexed(&mut self, index: usize) -> (r: Result<(), H2Error>)
        requires
            old(self).wf(),
        ensures
            final(self).wf(),
            final(self).pending() == old(self).pending(),
            match apply_repr(old(self).state(), ReprV::Indexed(index as nat)) {
                Ok(st) => r is Ok && final(self).state() == st,
                Err(e) => r == Err::<(), H2Error>(e),
            },
    {
        let found = {
            let searcher = TableSearcher::new(&self.table);
            searcher.search_header(index)
        };
        match found {
            None => Err(compression_error()),
            Some((h, v)) => {
                let size = self.check_header_list_size(&h, v.as_slice());
                match size {
                    Err(e) => Err(e),
                    Ok(()) => {
                        self.lines.parts.update(h, v);
                        Ok(())
                    },
                }
            },
        }
    }

    fn update_literal_with_indexing(&mut self, name: Name, value: Vec<u8>) -> (r: Result<(), H2Error>)
        requires
            old(self).wf(),
        ensures
            final(self).wf(),
            final(self).pending() == old(self).pending(),
            match apply_repr(old(self).state(), ReprV::WithIndexing(name@, value@)) {
                Ok(st) => r is Ok && final(self).state() == st,
                Err(e) => r == Err::<(), H2Error>(e),
            },
    {
        let (h, v) = match self.get_header_by_name_and_value(name, value) {
            Ok(p) => p,
            Err(e) => return Err(e),
        };
        let line = self.check_header_list_size(&h, v.as_slice());
        match line {
            Err(e) => return Err(e),
            Ok(()) => {},
        }
        proof {
            self.table.lemma_wf_size();
        }
        let add = h.len() + v.len() + 32;
        if self.table.curr_size() > usize::MAX - add {
            return Err(compression_error());
        }
        self.table.update(h.copy(), copy_bytes(v.as_slice()));
        self.lines.parts.update(h, v);
        Ok(())
    }

    fn update_literal_without_indexing(&mut self, name: Name, value: Vec<u8>) -> (r: Result<(), H2Error>)
        requires
            old(self).wf(),
        ensures
            final(self).wf(),
            final(self).pending() == old(self).pending(),
            match apply_repr(old(self).state(), ReprV::WithoutIndexing(name@, value@)) {
                Ok(st) => r is Ok && final(self).state() == st,
                Err(e) => r == Err::<(), H2Error>(e),
            },
    {
        let (h, v) = match self.get_header_by_name_and_value(name, value) {
            Ok(p) => p,
            Err(e) => return Err(e),
        };
        let line = self.check_header_list_size(&h, v.as_slice());
        match line {
            Err(e) => Err(e),
            Ok(()) => {
                self.lines.parts.update(h, v);
                Ok(())
            },
        }
    }

    fn update_literal_never_indexing(&mut self, name: Name, value: Vec<u8>) -> (r: Result<(), H2Error>)
        requires
            old(self).wf(),
        ensures
            final(self).wf(),
            final(self).pending() == old(self).pending(),
            match apply_repr(old(self).state(), ReprV::NeverIndexed(name@, value@)) {
                Ok(st) => r is Ok && final(self).state() == st,
                Err(e) => r == Err::<(), H2Error>(e),
            },
    {
        self.update_literal_without_indexing(name, value)
    }

    /// Adds the size of a field line to the block size; exceeding the
    /// header list size limit is a CONNECT_ERROR.
    fn check_header_list_size(&mut self, key: &Header, value: &[u8]) -> (r: Result<(), H2Error>)
        ensures
            final(self).wf() == old(self).wf(),
            final(self).pending() == old(self).pending(),
            old(self).state().3 + line_size(key@, value@) > old(self).state().4 ==>
                r == Err::<(), H2Error>(H2Error::ConnectionError(ErrorCode::ConnectError)),
            old(self).state().3 + line_size(key@, value@) <= old(self).state().4 ==> r is Ok
                && final(self).state() == (old(self).state().0, old(self).state().1, old(self).state().2,
                    old(self).state().3 + line_size(key@, value@), old(self).state().4),
    {
        let kl = key.len();
        let vl = value.len();
        if kl > usize::MAX - 32 || vl > usize::MAX - 32 - kl {
            return Err(H2Error::ConnectionError(ErrorCode::ConnectError));
        }
        let line_size = header_line_length(kl, vl);
        if self.lines.header_size > usize::MAX - line_size {
            return Err(H2Error::ConnectionError(ErrorCode::ConnectError));
        }
        self.update_size(line_size);
        if self.lines.header_size > self.header_list_size {
            Err(H2Error::ConnectionError(ErrorCode::ConnectError))
        } else {
            Ok(())
        }
    }

    fn update_size(&mut self, addition: usize)
        requires
            old(self).lines.header_size + addition <= usize::MAX,
        ensures
            final(self).lines.header_size == old(self).lines.header_size + addition,
            final(self).lines.parts == old(self).lines.parts,
            final(self).table == old(self).table,
            final(self).holder == old(self).holder,
            final(self).header_list_size == old(self).header_list_size,
    {
        self.lines.header_size = self.lines.header_size + addition;
    }

    fn get_header_by_name_and_value(&self, name: Name, value: Vec<u8>) -> (r: Result<(Header, Vec<u8>), H2Error>)
        ensures
            match name_of(self.state(), name@) {
                Some(h) => r matches Ok(p) && p.0@ == h && p.1@ == value@,
                None => r == Err::<(Header, Vec<u8>), H2Error>(H2Error::ConnectionError(ErrorCode::CompressionError)),
            },
    {
        let h = match name {
            Name::Index(index) => {
                let searcher = TableSearcher::new(&self.table);
                match searcher.search_header_name(index) {
                    Some(h) => h,
                    None => return Err(compression_error()),
                }
            },
            Name::Literal(octets) => Header::Other(octets),
        };
        Ok((h, value))
    }
}

/// The size a field line counts for: name, value and 32 octets.
fn header_line_length(key_size: usize, value_size: usize) -> (r: usize)
    requires
        key_size + value_size + 32 <= usize::MAX,
    ensures
        r == key_size + value_size + 32,
{
    key_size + value_size + 32
}

} // verus!
