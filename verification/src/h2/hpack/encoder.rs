//! HPACK encoder: turns a header block into field representations, adding
//! the fields it sends as literals to the dynamic table.
use vstd::prelude::*;
use crate::bytes::{copy_bytes, push_bytes};
use crate::h2::hpack::integer::{int_encoding, IntegerEncoder};
use crate::h2::hpack::table::{
    combined_index, evict, hname_bytes, hname_len, lemma_find_bounds, total_size, DynamicTable, HName, Header, TableIndex,
    TableSearcher,
};
use crate::h2::parts::{Parts, PartsView};
use crate::huffman::{encode as huffman_encode, huffman_encoding};
use crate::pseudo::PseudoHeaders;

verus! {

/// The fields of a header block in the order they are encoded: `:method`,
/// `:scheme`, `:path`, `:authority`, `:status` (those present), then the
/// field lines.
pub open spec fn parts_fields(p: PartsView) -> Seq<(HName, Seq<u8>)> {
    let ps = p.0;
    opt_field(HName::Method, ps.1) + opt_field(HName::Scheme, ps.3) + opt_field(HName::Path, ps.2)
        + opt_field(HName::Authority, ps.0) + opt_field(HName::Status, ps.4)
        + Seq::new(p.1.len(), |i: int| (HName::Other(p.1[i].0), p.1[i].1))
}

/// A pseudo header as a one-field list, or no field.
pub open spec fn opt_field(h: HName, v: Option<Seq<u8>>) -> Seq<(HName, Seq<u8>)> {
    match v {
        Some(s) => seq![(h, s)],
        None => Seq::empty(),
    }
}

/// The octets of a string literal, Huffman-coded when `huffman` is set.
pub open spec fn str_encoding(s: Seq<u8>, huffman: bool) -> Seq<u8> {
    if huffman {
        let e = huffman_encoding(s);
        int_encoding(e.len(), 0x7f, 0x80) + e
    } else {
        int_encoding(s.len(), 0x7f, 0) + s
    }
}

/// The table after adding a field sent as a literal with indexing; a table
/// whose size would not fit a `usize` is left unchanged.
pub open spec fn table_after(es: Seq<(HName, Seq<u8>)>, max: nat, h: HName, v: Seq<u8>) -> Seq<(HName, Seq<u8>)> {
    if total_size(es) + hname_len(h) + v.len() + 32 <= usize::MAX {
        evict(seq![(h, v)] + es, max)
    } else {
        es
    }
}

/// The representation of one field and the table after it: indexed when
/// the tables hold the field (or, by the combined lookup, a dynamic entry
/// with its name), a literal with indexed name when the static table holds
/// the name, otherwise a literal with a literal name.
pub open spec fn field_encoding(es: Seq<(HName, Seq<u8>)>, max: nat, h: HName, v: Seq<u8>, huffman: bool) -> (Seq<u8>, Seq<(HName, Seq<u8>)>) {
    match combined_index(es, h, v) {
        Some(TableIndex::Header(i)) => (int_encoding(i as nat, 0x7f, 0x80), es),
        Some(TableIndex::HeaderName(i)) => (
            int_encoding(i as nat, 0x3f, 0x40) + str_encoding(v, huffman),
            table_after(es, max, h, v),
        ),
        None => (
            seq![0x40u8] + str_encoding(hname_bytes(h), huffman) + str_encoding(v, huffman),
            table_after(es, max, h, v),
        ),
    }
}

/// The encoding of a list of fields and the table after it.
pub open spec fn fields_encoding(es: Seq<(HName, Seq<u8>)>, max: nat, fs: Seq<(HName, Seq<u8>)>, huffman: bool) -> (Seq<u8>, Seq<(HName, Seq<u8>)>)
    decreases fs.len(),
{
    if fs.len() == 0 {
        (Seq::empty(), es)
    } else {
        let prev = fields_encoding(es, max, fs.drop_last(), huffman);
        let last = field_encoding(prev.1, max, fs.last().0, fs.last().1, huffman);
        (prev.0 + last.0, last.1)
    }
}

/// Appends the encoding of an integer.
fn push_int(dst: &mut Vec<u8>, i: usize, mask: u8, pre: u8)
    ensures
        final(dst)@ == old(dst)@ + int_encoding(i as nat, mask, pre),
{
    let ghost start = dst@;
    let mut enc = IntegerEncoder::new(i, mask, pre);
    loop
        invariant
            start == old(dst)@,
            start + int_encoding(i as nat, mask, pre) == dst@ + enc.pending(),
        decreases enc.pending().len(),
    {
        let ghost before = enc.pending();
        match enc.next_byte() {
            Some(b) => {
                dst.push(b);
                assert(before == seq![b] + before.drop_first());
                assert(dst@ + enc.pending() =~= start + int_encoding(i as nat, mask, pre));
            },
            None => {
                assert(dst@ + enc.pending() =~= dst@);
                assert(dst@ =~= start + int_encoding(i as nat, mask, pre));
                return;
            },
        }
    }
}

/// Appends a string literal.
fn push_str(dst: &mut Vec<u8>, s: &[u8], huffman: bool)
    ensures
        final(dst)@ == old(dst)@ + str_encoding(s@, huffman),
{
    if huffman {
        let e = huffman_encode(s);
        push_int(dst, e.len(), 0x7f, 0x80);
        push_bytes(dst, e.as_slice());
        assert(dst@ =~= old(dst)@ + str_encoding(s@, huffman));
    } else {
        push_int(dst, s.len(), 0x7f, 0);
        push_bytes(dst, s);
        assert(dst@ =~= old(dst)@ + str_encoding(s@, huffman));
    }
}

/// Encoder of HPACK header blocks.
pub struct HpackEncoder {
    table: DynamicTable,
    parts: Option<Parts>,
    pending: Vec<u8>,
    use_huffman: bool,
    size_update: Option<usize>,
}

/// The dynamic table size update sent at the start of the next header
/// block, if any: its representation with a 5-bit prefix (RFC 7541, 6.3).
pub open spec fn update_prefix(u: Option<nat>) -> Seq<u8> {
    match u {
        Some(m) => int_encoding(m, 0x1f, 0x20),
        None => Seq::empty(),
    }
}

impl HpackEncoder {
    /// The dynamic table entries.
    pub closed spec fn entries(&self) -> Seq<(HName, Seq<u8>)> {
        self.table.entries()
    }

    /// The dynamic table size limit.
    pub closed spec fn max(&self) -> nat {
        self.table.max()
    }

    /// The header block set but not yet encoded.
    pub closed spec fn to_encode(&self) -> Option<PartsView> {
        match self.parts {
            Some(p) => Some(p.view_parts()),
            None => None,
        }
    }

    /// Octets encoded but not yet handed out.
    pub closed spec fn out(&self) -> Seq<u8> {
        self.pending@
    }

    /// Whether string literals are Huffman-coded.
    pub closed spec fn huffman(&self) -> bool {
        self.use_huffman
    }

    /// The table size limit still to announce at the start of the next
    /// header block.
    pub closed spec fn size_update(&self) -> Option<nat> {
        match self.size_update {
            Some(m) => Some(m as nat),
            None => None,
        }
    }

    /// The table is well formed.
    pub closed spec fn wf(&self) -> bool {
        self.table.wf()
    }

    /// Creates an encoder with the given dynamic table size limit.
    pub fn new(max_size: usize, use_huffman: bool) -> (r: HpackEncoder)
        ensures
            r.wf(),
            r.entries() == Seq::<(HName, Seq<u8>)>::empty(),
            r.max() == max_size,
            r.to_encode() is None,
            r.out() == Seq::<u8>::empty(),
            r.huffman() == use_huffman,
            r.size_update() is None,
    {
        HpackEncoder {
            table: DynamicTable::with_max_size(max_size),
            parts: None,
            pending: Vec::new(),
            use_huffman,
            size_update: None,
        }
    }

    /// Sets the dynamic table size limit: the oldest entries that no longer
    /// fit are evicted, and the new limit is announced at the start of the
    /// next header block.
    pub fn update_max_dynamic_table_size(&mut self, max_size: usize)
        requires
            old(self).wf(),
        ensures
            final(self).wf(),
            final(self).max() == max_size,
            final(self).entries() == evict(old(self).entries(), max_size as nat),
            final(self).size_update() == Some(max_size as nat),
            final(self).to_encode() == old(self).to_encode(),
            final(self).out() == old(self).out(),
            final(self).huffman() == old(self).huffman(),
    {
        self.table.update_size(max_size);
        self.size_update = Some(max_size);
    }

    /// The dynamic table.
    pub fn table(&self) -> (r: &DynamicTable)
        ensures
            r.entries() == self.entries(),
            r.max() == self.max(),
    {
        &self.table
    }

    /// Sets the header block to encode next; octets of an earlier block not
    /// yet handed out are dropped.
    pub fn set_parts(&mut self, parts: Parts)
        ensures
            final(self).wf() == old(self).wf(),
            final(self).entries() == old(self).entries(),
            final(self).max() == old(self).max(),
            final(self).to_encode() == Some(parts.view_parts()),
            final(self).out() == Seq::<u8>::empty(),
            final(self).huffman() == old(self).huffman(),
            final(self).size_update() == old(self).size_update(),
    {
        self.parts = Some(parts);
        self.pending = Vec::new();
    }

    /// Writes encoded octets into `dst`: the header block set is encoded
    /// (updating the table), then as many pending octets as fit are written;
    /// returns how many.
    pub fn encode(&mut self, dst: &mut [u8]) -> (r: usize)
        requires
            old(self).wf(),
        ensures
            final(self).wf(),
            final(self).max() == old(self).max(),
            final(self).huffman() == old(self).huffman(),
            final(self).to_encode() is None,
            final(self).size_update() == if old(self).to_encode() is Some { None } else { old(self).size_update() },
            ({
                let all = match old(self).to_encode() {
                    Some(p) => old(self).out() + update_prefix(old(self).size_update()) + fields_encoding(
                        old(self).entries(),
                        old(self).max(),
                        parts_fields(p),
                        old(self).huffman(),
                    ).0,
                    None => old(self).out(),
                };
                &&& r == if all.len() < old(dst)@.len() { all.len() } else { old(dst)@.len() as nat }
                &&& final(dst)@.len() == old(dst)@.len()
                &&& final(dst)@.subrange(0, r as int) == all.subrange(0, r as int)
                &&& final(dst)@.subrange(r as int, old(dst)@.len() as int) == old(dst)@.subrange(r as int, old(dst)@.len() as int)
                &&& final(self).out() == all.subrange(r as int, all.len() as int)
            }),
            final(self).entries() == match old(self).to_encode() {
                Some(p) => fields_encoding(old(self).entries(), old(self).max(), parts_fields(p), old(self).huffman()).1,
                None => old(self).entries(),
            },
    {
        let taken = self.parts.take();
        match taken {
            Some(parts) => {
                let ghost es = self.table.entries();
                let ghost max = self.table.max();
                let ghost pv = parts.view_parts();
                let mut out = copy_bytes(self.pending.as_slice());
                match self.size_update {
                    Some(m) => push_int(&mut out, m, 0x1f, 0x20),
                    None => {},
                }
                self.size_update = None;
                let ghost mid = out@;
                self.encode_parts(&parts, &mut out);
                self.pending = out;
            },
            None => {},
        }
        let n = if self.pending.len() < dst.len() { self.pending.len() } else { dst.len() };
        let ghost all = self.pending@;
        let mut i: usize = 0;
        while i < n
            invariant
                i <= n,
                n <= self.pending@.len(),
                n <= dst@.len(),
                dst@.len() == old(dst)@.len(),
                self.pending@ == all,
                dst@.subrange(0, i as int) == all.subrange(0, i as int),
                dst@.subrange(n as int, dst@.len() as int) == old(dst)@.subrange(n as int, old(dst)@.len() as int),
            decreases n - i,
        {
            dst[i] = self.pending[i];
            i = i + 1;
            assert(dst@.subrange(0, i as int) =~= all.subrange(0, i as int));
            assert(dst@.subrange(n as int, dst@.len() as int) =~= old(dst)@.subrange(n as int, old(dst)@.len() as int));
        }
        let rest = copy_bytes(&self.pending.as_slice()[n..self.pending.len()]);
        self.pending = rest;
        n
    }

    /// Whether everything set has been encoded and handed out.
    pub fn is_finished(&self) -> (r: bool)
        ensures
            r == (self.to_encode() is None && self.out().len() == 0),
    {
        self.parts.is_none() && self.pending.len() == 0
    }

    #[verifier::rlimit(30)]
    fn encode_parts(&mut self, parts: &Parts, out: &mut Vec<u8>)
        requires
            old(self).wf(),
        ensures
            final(self).wf(),
            final(self).max() == old(self).max(),
            final(self).huffman() == old(self).huffman(),
            final(self).to_encode() == old(self).to_encode(),
            final(self).out() == old(self).out(),
            final(self).size_update == old(self).size_update,
            final(out)@ == old(out)@ + fields_encoding(old(self).entries(), old(self).max(), parts_fields(parts.view_parts()), old(self).huffman()).0,
            final(self).entries() == fields_encoding(old(self).entries(), old(self).max(), parts_fields(parts.view_parts()), old(self).huffman()).1,
    {
        let fields = field_list(parts);
        let ghost fs = parts_fields(parts.view_parts());
        let ghost start = out@;
        let ghost es0 = self.entries();
        let ghost max = self.max();
        let ghost huff = self.huffman();
        let mut i: usize = 0;
        assert(fs.take(0) =~= Seq::<(HName, Seq<u8>)>::empty());
        while i < fields.len()
            invariant
                self.wf(),
                self.max() == max,
                self.huffman() == huff,
                self.to_encode() == old(self).to_encode(),
                self.out() == old(self).out(),
                self.size_update == old(self).size_update,
                i <= fields@.len(),
                fields_view(fields@) == fs,
                out@ == start + fields_encoding(es0, max, fs.take(i as int), huff).0,
                self.entries() == fields_encoding(es0, max, fs.take(i as int), huff).1,
            decreases fields@.len() - i,
        {
            let h = fields[i].0.copy();
            self.encode_field(h, fields[i].1.as_slice(), out);
            proof {
                let t = fs.take(i + 1);
                assert(t.drop_last() =~= fs.take(i as int));
                assert(t.last() == fs[i as int]);
            }
            i = i + 1;
        }
        assert(fs.take(fields@.len() as int) =~= fs);
    }

    fn encode_field(&mut self, h: Header, v: &[u8], out: &mut Vec<u8>)
        requires
            old(self).wf(),
        ensures
            final(self).wf(),
            final(self).max() == old(self).max(),
            final(self).huffman() == old(self).huffman(),
            final(self).to_encode() == old(self).to_encode(),
            final(self).out() == old(self).out(),
            final(self).size_update == old(self).size_update,
            final(out)@ == old(out)@ + field_encoding(old(self).entries(), old(self).max(), h@, v@, old(self).huffman()).0,
            final(self).entries() == field_encoding(old(self).entries(), old(self).max(), h@, v@, old(self).huffman()).1,
    {
        proof {
            self.table.lemma_wf_size();
        }
        let idx = TableSearcher::new(&self.table).index(&h, v);
        match idx {
            Some(TableIndex::Header(i)) => {
                push_int(out, i, 0x7f, 0x80);
            },
            Some(TableIndex::HeaderName(i)) => {
                push_int(out, i, 0x3f, 0x40);
                push_str(out, v, self.use_huffman);
                self.add_entry(h, v);
                assert(out@ =~= old(out)@ + field_encoding(old(self).entries(), old(self).max(), h@, v@, old(self).huffman()).0);
            },
            None => {
                out.push(0x40);
                let name = h.copy().into_string();
                push_str(out, name.as_slice(), self.use_huffman);
                push_str(out, v, self.use_huffman);
                self.add_entry(h, v);
                assert(out@ =~= old(out)@ + field_encoding(old(self).entries(), old(self).max(), h@, v@, old(self).huffman()).0);
            },
        }
    }

    /// Adds a field sent as a literal with indexing to the table.
    fn add_entry(&mut self, h: Header, v: &[u8])
        requires
            old(self).wf(),
        ensures
            final(self).wf(),
            final(self).max() == old(self).max(),
            final(self).huffman() == old(self).huffman(),
            final(self).to_encode() == old(self).to_encode(),
            final(self).out() == old(self).out(),
            final(self).size_update == old(self).size_update,
            final(self).entries() == table_after(old(self).entries(), old(self).max(), h@, v@),
    {
        proof {
            self.table.lemma_wf_size();
        }
        let cur = self.table.curr_size();
        let hl = h.len();
        let vl = v.len();
        if hl <= usize::MAX - cur && vl <= usize::MAX - cur - hl && 32 <= usize::MAX - cur - hl - vl {
            self.table.update(h, copy_bytes(v));
        }
    }
}

/// The abstract value of a list of fields.
pub open spec fn fields_view(v: Seq<(Header, Vec<u8>)>) -> Seq<(HName, Seq<u8>)> {
    Seq::new(v.len(), |i: int| (v[i].0@, v[i].1@))
}

fn push_opt(list: &mut Vec<(Header, Vec<u8>)>, h: Header, v: Option<&[u8]>)
    ensures
        fields_view(final(list)@) == fields_view(old(list)@) + opt_field(h@, match v { Some(s) => Some(s@), None => None }),
{
    match v {
        Some(s) => {
            let ghost hv = h@;
            list.push((h, copy_bytes(s)));
            assert(fields_view(list@) =~= fields_view(old(list)@) + seq![(hv, s@)]);
        },
        None => {
            assert(fields_view(list@) =~= fields_view(old(list)@) + Seq::<(HName, Seq<u8>)>::empty());
        },
    }
}

/// The fields of a header block in encoding order.
fn field_list(parts: &Parts) -> (r: Vec<(Header, Vec<u8>)>)
    ensures
        fields_view(r@) == parts_fields(parts.view_parts()),
{
    let (pseudo, map) = parts.parts();
    let mut list: Vec<(Header, Vec<u8>)> = Vec::new();
    assert(fields_view(list@) =~= Seq::<(HName, Seq<u8>)>::empty());
    push_opt(&mut list, Header::Method, pseudo.method());
    push_opt(&mut list, Header::Scheme, pseudo.scheme());
    push_opt(&mut list, Header::Path, pseudo.path());
    push_opt(&mut list, Header::Authority, pseudo.authority());
    push_opt(&mut list, Header::Status, pseudo.status());
    let ghost pv = parts.view_parts();
    let ghost ps = pv.0;
    let ghost pre = opt_field(HName::Method, ps.1) + opt_field(HName::Scheme, ps.3) + opt_field(HName::Path, ps.2)
        + opt_field(HName::Authority, ps.0) + opt_field(HName::Status, ps.4);
    assert(fields_view(list@) =~= pre);
    let mut i: usize = 0;
    while i < map.len()
        invariant
            i <= pv.1.len(),
            map.lines() == pv.1,
            fields_view(list@) == pre + Seq::new(i as nat, |k: int| (HName::Other(pv.1[k].0), pv.1[k].1)),
        decreases pv.1.len() - i,
    {
        let (n, v) = map.line(i);
        let ghost before = list@;
        list.push((Header::Other(copy_bytes(n)), copy_bytes(v)));
        assert(fields_view(list@) =~= fields_view(before).push((HName::Other(n@), v@)));
        assert(fields_view(list@) =~= pre + Seq::new((i + 1) as nat, |k: int| (HName::Other(pv.1[k].0), pv.1[k].1)));
        i = i + 1;
    }
    list
}

} // verus!
