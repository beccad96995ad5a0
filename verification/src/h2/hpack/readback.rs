//! Header blocks written by the HPACK encoder, read back by the HPACK
//! decoder.
use vstd::prelude::*;
use vstd::arithmetic::power2::pow2;
use crate::h2::hpack::integer::{cont_bytes, int_encoding, is_prefix_mask, lemma_cont_bytes_nonempty};
use crate::h2::hpack::representation::{int_at, int_cont, str_at, IntRes, StrRes};
use crate::h2::hpack::encoder::{field_encoding, fields_encoding, str_encoding, table_after, update_prefix};
use crate::h2::hpack::representation::{literal_at, repr_at, NameV, ReprRes, ReprV};
use crate::h2::hpack::decoder::{add_line, apply_repr, line_size, name_of, run_reprs, DecView};
use crate::h2::hpack::table::{
    combined_index, dynamic_index, evict, find_entry, find_hname, hname_bytes, hname_len, lemma_evict_fits,
    lemma_total_len, search_name, search_pair, static_find_other, static_index, static_name, static_other_name, static_value,
    total_size, HName, TableIndex,
};
use crate::h2::parts::{empty_parts, parts_updated, PartsView};
use crate::h2::hpack::encoder::{opt_field, parts_fields};
use crate::headers::{appended, find_name, first_with_name, names_unique};
use crate::bytes::lower_seq;
use crate::huffman::huffman_encoding;
use crate::huffman_readback::lemma_huffman_readback;

verus! {

proof fn lemma_usize_bits()
    ensures
        usize::BITS == 32 || usize::BITS == 64,
        usize::MAX + 1 == pow2(usize::BITS as nat),
{
    vstd::arithmetic::power2::lemma2_to64();
}

/// Continuation octets of `x` read back, after `k` groups worth `value`.
proof fn lemma_cont_at(a: Seq<u8>, x: nat, rest: Seq<u8>, value: nat, k: nat)
    requires
        7 * k < usize::BITS,
        value + x * pow2(7 * k) <= usize::MAX,
    ensures
        int_cont(a + cont_bytes(x) + rest, a.len() as int, value, k) == IntRes::Done(
            value + x * pow2(7 * k),
            (a.len() + cont_bytes(x).len()) as int,
        ),
    decreases x,
{
    let bs = a + cont_bytes(x) + rest;
    let pos = a.len() as int;
    let p = pow2(7 * k);
    vstd::arithmetic::power2::lemma_pow2_pos(7 * k);
    if x < 128 {
        assert(bs[pos] == x as u8);
        assert((x as u8) % 128 == x);
    } else {
        let b = (x % 128 + 128) as u8;
        assert(bs[pos] == b);
        assert(b % 128 == x % 128);
        let q = x / 128;
        let r = x % 128;
        assert(x == 128 * q + r);
        assert(r * p <= x * p) by (nonlinear_arith)
            requires
                r <= x,
        ;
        let v = value + r * p;
        vstd::arithmetic::power2::lemma_pow2_adds(7 * k, 7);
        vstd::arithmetic::power2::lemma2_to64();
        assert(pow2(7 * (k + 1)) == p * 128);
        assert(v + q * pow2(7 * (k + 1)) == value + x * p) by (nonlinear_arith)
            requires
                v == value + r * p,
                pow2(7 * (k + 1)) == p * 128,
                x == 128 * q + r,
        ;
        assert(7 * (k + 1) < usize::BITS) by {
            lemma_usize_bits();
            if 7 * (k + 1) >= usize::BITS {
                if 7 * (k + 1) > usize::BITS {
                    vstd::arithmetic::power2::lemma_pow2_strictly_increases(usize::BITS as nat, 7 * (k + 1));
                }
                assert(q >= 1);
                assert(q * pow2(7 * (k + 1)) >= pow2(7 * (k + 1))) by (nonlinear_arith)
                    requires
                        q >= 1,
                ;
            }
        }
        let a2 = a.push(b);
        assert(a2 + cont_bytes(q) + rest =~= bs);
        lemma_cont_at(a2, q, rest, v, k + 1);
        lemma_cont_bytes_nonempty(q);
    }
}

/// An integer encoded after `a` is read back, whatever follows it.
pub proof fn lemma_int_at(a: Seq<u8>, i: nat, mask: u8, pre: u8, rest: Seq<u8>)
    requires
        is_prefix_mask(mask),
        mask < 255,
        pre & mask == 0,
        i <= usize::MAX,
    ensures
        int_at(a + int_encoding(i, mask, pre) + rest, a.len() as int, mask) == IntRes::Done(
            i,
            (a.len() + int_encoding(i, mask, pre).len()) as int,
        ),
{
    let enc = int_encoding(i, mask, pre);
    let bs = a + enc + rest;
    let pos = a.len() as int;
    if i < mask {
        let x = i as u8;
        assert(((pre | x) & mask) == x) by (bit_vector)
            requires
                pre & mask == 0,
                x < mask,
                mask == 1 || mask == 3 || mask == 7 || mask == 15 || mask == 31 || mask == 63 || mask == 127 || mask == 255;
        assert(bs[pos] == pre | x);
    } else {
        let x = (i - mask) as nat;
        assert(((pre | mask) & mask) == mask) by (bit_vector);
        assert(bs[pos] == pre | mask);
        let a2 = a.push(pre | mask);
        assert(a2 + cont_bytes(x) + rest =~= bs);
        vstd::arithmetic::power2::lemma2_to64();
        lemma_usize_bits();
        assert(pow2(7 * 0) == 1);
        assert(x * pow2(7 * 0) == x);
        assert(mask + x * pow2(7 * 0) == i);
        lemma_cont_at(a2, x, rest, mask as nat, 0);
    }
}

/// The octets sent for a string: its Huffman code when `huffman` is set.
pub open spec fn coded(s: Seq<u8>, huffman: bool) -> Seq<u8> {
    if huffman { huffman_encoding(s) } else { s }
}

/// A string literal encoded after `a` is read back, whatever follows it.
pub proof fn lemma_str_at(a: Seq<u8>, s: Seq<u8>, huffman: bool, rest: Seq<u8>)
    requires
        coded(s, huffman).len() <= usize::MAX,
    ensures
        str_at(a + str_encoding(s, huffman) + rest, a.len() as int) == StrRes::Done(
            s,
            (a.len() + str_encoding(s, huffman).len()) as int,
        ),
{
    let e = coded(s, huffman);
    let pre: u8 = if huffman { 0x80 } else { 0 };
    let ie = int_encoding(e.len(), 0x7f, pre);
    assert(str_encoding(s, huffman) == ie + e);
    let bs = a + str_encoding(s, huffman) + rest;
    assert(bs =~= a + ie + (e + rest));
    assert(pre & 0x7f == 0) by (bit_vector)
        requires
            pre == 0x80 || pre == 0;
    lemma_int_at(a, e.len(), 0x7f, pre, e + rest);
    let p = a.len() + ie.len();
    assert(bs.subrange(p as int, (p + e.len()) as int) =~= e);
    let first = bs[a.len() as int];
    assert(first == ie[0]);
    if e.len() < 0x7f {
        let x = e.len() as u8;
        assert(first == pre | x);
        assert(huffman ==> (0x80u8 | x) >= 128) by (bit_vector);
        assert(!huffman ==> (0u8 | x) < 128) by (bit_vector)
            requires
                x < 0x7f;
    } else {
        assert(first == pre | 0x7f);
        assert((0x80u8 | 0x7fu8) >= 128 && (0u8 | 0x7fu8) < 128) by (bit_vector);
    }
    if huffman {
        lemma_huffman_readback(s);
    }
}

proof fn lemma_find_entry(es: Seq<(HName, Seq<u8>)>, h: HName, v: Seq<u8>, i: int)
    ensures
        find_entry(es, h, v, i) matches Some(k) ==> 0 <= i <= k < es.len() && es[k] == (h, v),
    decreases es.len() - i,
{
    if 0 <= i < es.len() && es[i] != (h, v) {
        lemma_find_entry(es, h, v, i + 1);
    }
}

proof fn lemma_find_hname(es: Seq<(HName, Seq<u8>)>, h: HName, i: int)
    ensures
        find_hname(es, h, i) matches Some(k) ==> 0 <= i <= k < es.len() && es[k].0 == h,
    decreases es.len() - i,
{
    if 0 <= i < es.len() && es[i].0 != h {
        lemma_find_hname(es, h, i + 1);
    }
}

proof fn lemma_static_find(key: Seq<u8>, i: int)
    ensures
        static_find_other(key, i) matches Some(j) ==> 15 <= j <= 61 && static_name(j) == Some(HName::Other(key)),
    decreases 62 - i,
{
    if 15 <= i <= 61 && static_other_name(i) != key {
        lemma_static_find(key, i + 1);
    }
}

/// What the static table gives for a field is what it holds there.
proof fn lemma_static_index(h: HName, v: Seq<u8>)
    ensures
        static_index(h, v) matches Some(TableIndex::Header(x)) ==> 1 <= x <= 61 && static_name(x as int) == Some(h)
            && static_value(x as int) == Some(v),
        static_index(h, v) matches Some(TableIndex::HeaderName(x)) ==> 1 <= x <= 61 && static_name(x as int) == Some(h),
        static_index(h, v) is None ==> h is Other && static_find_other(h->Other_0, 15) is None,
{
    match h {
        HName::Other(key) => {
            lemma_static_find(key, 15);
        },
        _ => {},
    }
}

/// The field that the decoder reads for `(h, v)` encoded with the table
/// `es`: what the tables hold at the index sent, for a field sent as an
/// index, and the field itself otherwise. It is always the field itself
/// ([`lemma_sent_fields_are_fields`]).
pub open spec fn sent_field(es: Seq<(HName, Seq<u8>)>, h: HName, v: Seq<u8>) -> (HName, Seq<u8>) {
    match combined_index(es, h, v) {
        Some(TableIndex::Header(i)) => match search_pair(es, i as int) {
            Some(p) => p,
            None => (h, v),
        },
        _ => (h, v),
    }
}

/// The decoder state after a field is read.
pub open spec fn state_after(st: DecView, es: Seq<(HName, Seq<u8>)>, f: (HName, Seq<u8>)) -> DecView {
    (es, st.1, parts_updated(st.2, f.0, f.1), st.3 + line_size(f.0, f.1), st.4)
}

/// The conditions under which a field is read back: the decoder's table
/// and limit are the encoder's, the table fits its limit, the field's size
/// fits a `usize` beside the limit, its strings' lengths fit a `usize`, and
/// the header list stays within the decoder's limit.
pub open spec fn field_ok(st: DecView, es: Seq<(HName, Seq<u8>)>, max: nat, h: HName, v: Seq<u8>, huffman: bool) -> bool {
    &&& st.0 == es
    &&& st.1 == max
    &&& total_size(es) <= max
    &&& line_size(h, v) + max <= usize::MAX
    &&& coded(v, huffman).len() <= usize::MAX
    &&& coded(hname_bytes(h), huffman).len() <= usize::MAX
    &&& st.3 + line_size(sent_field(es, h, v).0, sent_field(es, h, v).1) <= st.4
}

/// The combined index of a field, where it is an index of the whole field:
/// within the tables, and what they hold there is what is read.
pub(crate) proof fn lemma_header_index(es: Seq<(HName, Seq<u8>)>, max: nat, h: HName, v: Seq<u8>)
    requires
        total_size(es) <= max,
        max <= usize::MAX,
    ensures
        combined_index(es, h, v) matches Some(TableIndex::Header(i)) ==> 1 <= i && search_pair(es, i as int) is Some,
        combined_index(es, h, v) matches Some(TableIndex::HeaderName(x)) ==> 1 <= x && search_name(es, x as int) == Some(h),
        combined_index(es, h, v) is None ==> h is Other,
        sent_field(es, h, v) == (h, v),
{
    lemma_static_index(h, v);
    lemma_find_entry(es, h, v, 0);
    lemma_find_hname(es, h, 0);
    lemma_total_len(es);
    match dynamic_index(es, h, v) {
        Some(TableIndex::Header(i)) => {
            assert(i < es.len());
            assert(((i + 62) as usize) as int == i + 62);
        },
        Some(TableIndex::HeaderName(i)) => {
            assert(i < es.len());
            assert(((i + 62) as usize) as int == i + 62);
        },
        None => {},
    }
}

/// The combined table index that the HPACK encoder finds for a field
/// names an entry that holds exactly that field, and an index of a name
/// names an entry with that name (static or dynamic).
pub proof fn lemma_index_matches(es: Seq<(HName, Seq<u8>)>, max: nat, h: HName, v: Seq<u8>)
    requires
        total_size(es) <= max,
        max <= usize::MAX,
    ensures
        combined_index(es, h, v) matches Some(TableIndex::Header(i)) ==> search_pair(es, i as int) == Some((h, v)),
        combined_index(es, h, v) matches Some(TableIndex::HeaderName(x)) ==> search_name(es, x as int) == Some(h),
{
    lemma_header_index(es, max, h, v);
}

/// What a field's encoding reads back as.
pub open spec fn step_ok(st: DecView, es: Seq<(HName, Seq<u8>)>, max: nat, h: HName, v: Seq<u8>, huffman: bool, a: Seq<u8>, rest: Seq<u8>) -> bool {
    let (e, es2) = field_encoding(es, max, h, v, huffman);
    &&& e.len() > 0
    &&& repr_at(a + e + rest, a.len() as int) matches ReprRes::Done(r, p) && p == a.len() + e.len()
        && apply_repr(st, r) == Ok::<DecView, crate::h2::error::H2Error>(state_after(st, es2, sent_field(es, h, v)))
}

proof fn lemma_field_indexed(st: DecView, es: Seq<(HName, Seq<u8>)>, max: nat, h: HName, v: Seq<u8>, huffman: bool, a: Seq<u8>, rest: Seq<u8>, i: usize)
    requires
        field_ok(st, es, max, h, v, huffman),
        combined_index(es, h, v) == Some(TableIndex::Header(i)),
    ensures
        step_ok(st, es, max, h, v, huffman, a, rest),
{
    let (e, es2) = field_encoding(es, max, h, v, huffman);
    let bs = a + e + rest;
    let pos = a.len() as int;
    lemma_header_index(es, max, h, v);
    let sent = sent_field(es, h, v);
    assert(e == int_encoding(i as nat, 0x7f, 0x80));
    assert(0x80u8 & 0x7fu8 == 0) by (bit_vector);
    lemma_int_at(a, i as nat, 0x7f, 0x80, rest);
    let first = bs[pos];
    assert(first == e[0]);
    if i < 0x7f {
        let x = i as u8;
        assert((0x80u8 | x) >= 128) by (bit_vector);
    } else {
        assert((0x80u8 | 0x7fu8) >= 128) by (bit_vector);
    }
    assert(es2 == es);
    assert(search_pair(es, i as int) == Some(sent));
}

/// The first octet of a literal field with an indexed name.
pub(crate) proof fn lemma_name_index_byte(xb: u8)
    requires
        xb <= 0x3f,
    ensures
        64 <= (0x40u8 | xb) < 128,
{
    assert(64 <= (0x40u8 | xb) < 128) by (bit_vector)
        requires
            xb <= 0x3f;
}

#[verifier::spinoff_prover]
#[verifier::rlimit(30)]
proof fn lemma_field_named(st: DecView, es: Seq<(HName, Seq<u8>)>, max: nat, h: HName, v: Seq<u8>, huffman: bool, a: Seq<u8>, rest: Seq<u8>, x: usize)
    requires
        field_ok(st, es, max, h, v, huffman),
        combined_index(es, h, v) == Some(TableIndex::HeaderName(x)),
    ensures
        step_ok(st, es, max, h, v, huffman, a, rest),
{
    let (e, es2) = field_encoding(es, max, h, v, huffman);
    let bs = a + e + rest;
    let pos = a.len() as int;
    lemma_header_index(es, max, h, v);
    let ie = int_encoding(x as nat, 0x3f, 0x40);
    let se = str_encoding(v, huffman);
    assert(e == ie + se);
    assert(bs =~= a + ie + (se + rest));
    assert(0x40u8 & 0x3fu8 == 0) by (bit_vector);
    lemma_int_at(a, x as nat, 0x3f, 0x40, se + rest);
    let first = bs[pos];
    assert(first == ie[0]);
    if x < 0x3f {
        let xb = x as u8;
        assert(first == 0x40u8 | xb);
        lemma_name_index_byte(xb);
    } else {
        assert(first == 0x40u8 | 0x3fu8);
        lemma_name_index_byte(0x3f);
    }
    let a1 = a + ie;
    assert(bs =~= a1 + se + rest);
    lemma_str_at(a1, v, huffman, rest);
    assert(name_of(st, NameV::Index(x as nat)) == Some(h));
    assert(table_after(es, max, h, v) == evict(seq![(h, v)] + es, max));
}

/// A literal field with a literal name, after `a`, is parsed as such.
proof fn lemma_literal_parse(nb: Seq<u8>, v: Seq<u8>, huffman: bool, a: Seq<u8>, rest: Seq<u8>)
    requires
        coded(v, huffman).len() <= usize::MAX,
        coded(nb, huffman).len() <= usize::MAX,
    ensures
        ({
            let e = seq![0x40u8] + str_encoding(nb, huffman) + str_encoding(v, huffman);
            repr_at(a + e + rest, a.len() as int) == ReprRes::Done(
                ReprV::WithIndexing(NameV::Literal(nb), v),
                (a.len() + e.len()) as int,
            )
        }),
{
    let s1 = str_encoding(nb, huffman);
    let s2 = str_encoding(v, huffman);
    let e = seq![0x40u8] + s1 + s2;
    let bs = a + e + rest;
    let pos = a.len() as int;
    assert(bs[pos] == 0x40u8);
    assert(0x40u8 & 0x3fu8 == 0) by (bit_vector);
    assert(int_at(bs, pos, 0x3f) == IntRes::Done(0, pos + 1));
    let a1 = a.push(0x40u8);
    assert(bs =~= a1 + s1 + (s2 + rest));
    lemma_str_at(a1, nb, huffman, s2 + rest);
    let a2 = a1 + s1;
    assert(bs =~= a2 + s2 + rest);
    lemma_str_at(a2, v, huffman, rest);
}

proof fn lemma_field_literal(st: DecView, es: Seq<(HName, Seq<u8>)>, max: nat, h: HName, v: Seq<u8>, huffman: bool, a: Seq<u8>, rest: Seq<u8>)
    requires
        field_ok(st, es, max, h, v, huffman),
        combined_index(es, h, v) is None,
    ensures
        step_ok(st, es, max, h, v, huffman, a, rest),
{
    let (e, es2) = field_encoding(es, max, h, v, huffman);
    lemma_header_index(es, max, h, v);
    let nb = hname_bytes(h);
    assert(e == seq![0x40u8] + str_encoding(nb, huffman) + str_encoding(v, huffman));
    lemma_literal_parse(nb, v, huffman, a, rest);
    assert(name_of(st, NameV::Literal(nb)) == Some(h));
    assert(table_after(es, max, h, v) == evict(seq![(h, v)] + es, max));
    assert(es2 == evict(seq![(h, v)] + es, max));
    assert(apply_repr(st, ReprV::WithIndexing(NameV::Literal(nb), v)) == add_line(st, h, v, true));
}

/// A field encoded after `a` is read back as the field sent, with the
/// table changed as the encoder changed its own.
pub(crate) proof fn lemma_field_step(st: DecView, es: Seq<(HName, Seq<u8>)>, max: nat, h: HName, v: Seq<u8>, huffman: bool, a: Seq<u8>, rest: Seq<u8>)
    requires
        field_ok(st, es, max, h, v, huffman),
    ensures
        step_ok(st, es, max, h, v, huffman, a, rest),
{
    match combined_index(es, h, v) {
        Some(TableIndex::Header(i)) => lemma_field_indexed(st, es, max, h, v, huffman, a, rest, i),
        Some(TableIndex::HeaderName(x)) => lemma_field_named(st, es, max, h, v, huffman, a, rest, x),
        None => lemma_field_literal(st, es, max, h, v, huffman, a, rest),
    }
}

/// The fields that the decoder reads for `fs` encoded from the table `es`,
/// in order (see [`sent_field`]).
pub open spec fn sent_fields(es: Seq<(HName, Seq<u8>)>, max: nat, fs: Seq<(HName, Seq<u8>)>, huffman: bool) -> Seq<(HName, Seq<u8>)>
    decreases fs.len(),
{
    if fs.len() == 0 {
        Seq::empty()
    } else {
        let prev = fields_encoding(es, max, fs.drop_last(), huffman);
        sent_fields(es, max, fs.drop_last(), huffman).push(sent_field(prev.1, fs.last().0, fs.last().1))
    }
}

/// A header block after the fields `ls` are added to it, in order.
pub open spec fn parts_after(p: PartsView, ls: Seq<(HName, Seq<u8>)>) -> PartsView
    decreases ls.len(),
{
    if ls.len() == 0 {
        p
    } else {
        let q = parts_after(p, ls.drop_last());
        parts_updated(q, ls.last().0, ls.last().1)
    }
}

/// The size that fields count for in the header list.
pub open spec fn lines_size(ls: Seq<(HName, Seq<u8>)>) -> nat
    decreases ls.len(),
{
    if ls.len() == 0 {
        0
    } else {
        lines_size(ls.drop_last()) + line_size(ls.last().0, ls.last().1)
    }
}

/// The conditions under which a block is read back: the decoder's table
/// and limit are the encoder's, the table fits its limit, each field's
/// size fits a `usize` beside the limit and its strings' lengths fit a
/// `usize`, and the header list stays within the decoder's limit.
#[verifier::opaque]
pub open spec fn block_ok(st: DecView, es: Seq<(HName, Seq<u8>)>, max: nat, fs: Seq<(HName, Seq<u8>)>, huffman: bool) -> bool {
    &&& st.0 == es
    &&& st.1 == max
    &&& total_size(es) <= max
    &&& forall|i: int| 0 <= i < fs.len() ==> line_size(#[trigger] fs[i].0, fs[i].1) + max <= usize::MAX
    &&& forall|i: int| 0 <= i < fs.len() ==> coded(#[trigger] fs[i].1, huffman).len() <= usize::MAX
    &&& forall|i: int| 0 <= i < fs.len() ==> coded(hname_bytes(#[trigger] fs[i].0), huffman).len() <= usize::MAX
    &&& st.3 + lines_size(sent_fields(es, max, fs, huffman)) <= st.4
}

/// The decoder state after a block.
#[verifier::opaque]
pub open spec fn block_state(st: DecView, es: Seq<(HName, Seq<u8>)>, max: nat, fs: Seq<(HName, Seq<u8>)>, huffman: bool) -> DecView {
    let sent = sent_fields(es, max, fs, huffman);
    (fields_encoding(es, max, fs, huffman).1, st.1, parts_after(st.2, sent), st.3 + lines_size(sent), st.4)
}

/// The HPACK encoder's dynamic table stays within its size limit: a table
/// within the limit (as every table is after `update_max_dynamic_table_size`
/// evicts, [`lemma_evict_fits`]) is still within it after any header block
/// is encoded.
pub proof fn lemma_table_fits(es: Seq<(HName, Seq<u8>)>, max: nat, fs: Seq<(HName, Seq<u8>)>, huffman: bool)
    requires
        total_size(es) <= max,
    ensures
        total_size(fields_encoding(es, max, fs, huffman).1) <= max,
    decreases fs.len(),
{
    if fs.len() > 0 {
        let prev = fields_encoding(es, max, fs.drop_last(), huffman);
        lemma_table_fits(es, max, fs.drop_last(), huffman);
        lemma_evict_fits(seq![(fs.last().0, fs.last().1)] + prev.1, max);
    }
}

/// One representation read and applied.
pub(crate) proof fn lemma_run_step(st: DecView, st2: DecView, bs: Seq<u8>, pos: int, r: ReprV, p: int)
    requires
        repr_at(bs, pos) == ReprRes::Done(r, p),
        pos < p <= bs.len(),
        apply_repr(st, r) == Ok::<DecView, crate::h2::error::H2Error>(st2),
    ensures
        run_reprs(st, bs, pos) == run_reprs(st2, bs, p),
{
}

pub(crate) proof fn lemma_block_ok_prefix(st: DecView, es: Seq<(HName, Seq<u8>)>, max: nat, fs: Seq<(HName, Seq<u8>)>, huffman: bool)
    requires
        block_ok(st, es, max, fs, huffman),
        fs.len() > 0,
    ensures
        block_ok(st, es, max, fs.drop_last(), huffman),
{
    reveal(block_ok);
    let q = fs.drop_last();
    assert forall|i: int| 0 <= i < q.len() implies line_size(#[trigger] q[i].0, q[i].1) + max <= usize::MAX by {
        assert(q[i] == fs[i]);
    }
    assert forall|i: int| 0 <= i < q.len() implies coded(#[trigger] q[i].1, huffman).len() <= usize::MAX by {
        assert(q[i] == fs[i]);
    }
    assert forall|i: int| 0 <= i < q.len() implies coded(hname_bytes(#[trigger] q[i].0), huffman).len() <= usize::MAX by {
        assert(q[i] == fs[i]);
    }
    let sent = sent_fields(es, max, fs, huffman);
    assert(sent.drop_last() =~= sent_fields(es, max, q, huffman));
}

/// A block's encoding: the encoding of all fields but the last, then the
/// last one's.
pub(crate) proof fn lemma_enc_split(es: Seq<(HName, Seq<u8>)>, max: nat, fs: Seq<(HName, Seq<u8>)>, huffman: bool)
    requires
        fs.len() > 0,
    ensures
        ({
            let prev = fields_encoding(es, max, fs.drop_last(), huffman).0;
            let enc = fields_encoding(es, max, fs, huffman).0;
            &&& prev.len() <= enc.len()
            &&& enc == prev + enc.subrange(prev.len() as int, enc.len() as int)
        }),
{
    let prev = fields_encoding(es, max, fs.drop_last(), huffman).0;
    let enc = fields_encoding(es, max, fs, huffman).0;
    assert(enc =~= prev + enc.subrange(prev.len() as int, enc.len() as int));
}

/// The last field of a block, encoded from the table the others leave, is
/// read back from the state they leave, into the state of the whole block.
pub(crate) proof fn lemma_last_field(st: DecView, es: Seq<(HName, Seq<u8>)>, max: nat, fs: Seq<(HName, Seq<u8>)>, huffman: bool)
    requires
        block_ok(st, es, max, fs, huffman),
        fs.len() > 0,
    ensures
        ({
            let q = fs.drop_last();
            let (h, v) = fs.last();
            let prev = fields_encoding(es, max, q, huffman);
            let last = field_encoding(prev.1, max, h, v, huffman);
            let mid = block_state(st, es, max, q, huffman);
            &&& field_ok(mid, prev.1, max, h, v, huffman)
            &&& state_after(mid, last.1, sent_field(prev.1, h, v)) == block_state(st, es, max, fs, huffman)
            &&& fields_encoding(es, max, fs, huffman).0 == prev.0 + last.0
        }),
{
    reveal(block_ok);
    reveal(block_state);
    let q = fs.drop_last();
    let (h, v) = fs.last();
    let prev = fields_encoding(es, max, q, huffman);
    let sent = sent_fields(es, max, fs, huffman);
    let sq = sent_fields(es, max, q, huffman);
    assert(sent.drop_last() =~= sq);
    lemma_table_fits(es, max, q, huffman);
    assert(fs[fs.len() - 1] == (h, v));
}

/// The last field of a block, read after the others.
proof fn lemma_block_last(st: DecView, es: Seq<(HName, Seq<u8>)>, max: nat, fs: Seq<(HName, Seq<u8>)>, huffman: bool, a: Seq<u8>, rest: Seq<u8>)
    requires
        block_ok(st, es, max, fs, huffman),
        fs.len() > 0,
    ensures
        ({
            let q = fs.drop_last();
            let prev = fields_encoding(es, max, q, huffman).0;
            let enc = fields_encoding(es, max, fs, huffman).0;
            &&& enc.len() > prev.len()
            &&& run_reprs(block_state(st, es, max, q, huffman), a + enc + rest, (a.len() + prev.len()) as int) == run_reprs(
                block_state(st, es, max, fs, huffman),
                a + enc + rest,
                (a.len() + enc.len()) as int,
            )
        }),
{
    let q = fs.drop_last();
    let (h, v) = fs.last();
    let prev = fields_encoding(es, max, q, huffman);
    let last = field_encoding(prev.1, max, h, v, huffman);
    lemma_last_field(st, es, max, fs, huffman);
    let enc = prev.0 + last.0;
    let bs = a + enc + rest;
    let mid = block_state(st, es, max, q, huffman);
    let a1 = a + prev.0;
    assert(bs =~= a1 + last.0 + rest);
    lemma_field_step(mid, prev.1, max, h, v, huffman, a1, rest);
    let fin = block_state(st, es, max, fs, huffman);
    match repr_at(a1 + last.0 + rest, a1.len() as int) {
        ReprRes::Done(r, p) => {
            lemma_run_step(mid, fin, bs, a1.len() as int, r, p);
        },
        _ => {},
    }
}

proof fn lemma_block_at(st: DecView, es: Seq<(HName, Seq<u8>)>, max: nat, fs: Seq<(HName, Seq<u8>)>, huffman: bool, a: Seq<u8>, rest: Seq<u8>)
    requires
        block_ok(st, es, max, fs, huffman),
    ensures
        ({
            let enc = fields_encoding(es, max, fs, huffman).0;
            run_reprs(st, a + enc + rest, a.len() as int) == run_reprs(
                block_state(st, es, max, fs, huffman),
                a + enc + rest,
                (a.len() + enc.len()) as int,
            )
        }),
    decreases fs.len(),
{
    if fs.len() == 0 {
        reveal(block_ok);
        reveal(block_state);
        assert(fields_encoding(es, max, fs, huffman).0 =~= Seq::<u8>::empty());
        assert(parts_after(st.2, Seq::empty()) == st.2);
        assert(block_state(st, es, max, fs, huffman) == st);
    } else {
        let q = fs.drop_last();
        lemma_block_ok_prefix(st, es, max, fs, huffman);
        lemma_enc_split(es, max, fs, huffman);
        let prev = fields_encoding(es, max, q, huffman).0;
        let enc = fields_encoding(es, max, fs, huffman).0;
        let tail = enc.subrange(prev.len() as int, enc.len() as int);
        assert(a + enc + rest =~= a + prev + (tail + rest));
        lemma_block_at(st, es, max, q, huffman, a, tail + rest);
        lemma_block_last(st, es, max, fs, huffman, a, rest);
    }
}

/// A header block that the HPACK encoder writes from its dynamic table
/// `es` (limit `max`, Huffman coding or not) is read back in full by a
/// decoder whose table and limit are the same: it reads the fields sent
/// ([`sent_fields`]), adds to its table what the encoder added to its own,
/// and stops at the end of the block; provided the sizes fit a `usize`
/// and the header list the decoder's limit.
pub proof fn lemma_block_readback(st: DecView, es: Seq<(HName, Seq<u8>)>, max: nat, fs: Seq<(HName, Seq<u8>)>, huffman: bool)
    requires
        block_ok(st, es, max, fs, huffman),
    ensures
        run_reprs(st, fields_encoding(es, max, fs, huffman).0, 0) == Ok::<(DecView, int), crate::h2::error::H2Error>(
            (block_state(st, es, max, fs, huffman), fields_encoding(es, max, fs, huffman).0.len() as int),
        ),
        block_state(st, es, max, fs, huffman).0 == fields_encoding(es, max, fs, huffman).1,
{
    let enc = fields_encoding(es, max, fs, huffman).0;
    reveal(block_state);
    lemma_block_at(st, es, max, fs, huffman, Seq::empty(), Seq::empty());
    assert(Seq::<u8>::empty() + enc + Seq::<u8>::empty() =~= enc);
}

/// The first octet of a dynamic table size update.
proof fn lemma_update_byte(xb: u8)
    requires
        xb <= 0x1f,
    ensures
        32 <= (0x20u8 | xb) < 64,
        0x20u8 & 0x1fu8 == 0,
{
    assert(32 <= (0x20u8 | xb) < 64 && 0x20u8 & 0x1fu8 == 0) by (bit_vector)
        requires
            xb <= 0x1f;
}

/// A header block that starts with a dynamic table size update to `m`, as
/// the HPACK encoder writes it after its limit was set to `m`, is read back
/// by a decoder whose table was the encoder's before the update: it applies
/// the update (evicting what no longer fits), then reads the fields as
/// [`lemma_block_readback`] says, from the table and limit that the
/// encoder then had.
pub proof fn lemma_update_block_readback(st: DecView, m: nat, fs: Seq<(HName, Seq<u8>)>, huffman: bool)
    requires
        m <= usize::MAX,
        block_ok((evict(st.0, m), m, st.2, st.3, st.4), evict(st.0, m), m, fs, huffman),
    ensures
        ({
            let st1 = (evict(st.0, m), m, st.2, st.3, st.4);
            let enc = fields_encoding(evict(st.0, m), m, fs, huffman).0;
            let all = update_prefix(Some(m)) + enc;
            run_reprs(st, all, 0) == Ok::<(DecView, int), crate::h2::error::H2Error>(
                (block_state(st1, evict(st.0, m), m, fs, huffman), all.len() as int),
            )
        }),
{
    let st1 = (evict(st.0, m), m, st.2, st.3, st.4);
    let es = evict(st.0, m);
    let enc = fields_encoding(es, m, fs, huffman).0;
    let ie = int_encoding(m, 0x1f, 0x20);
    let all = ie + enc;
    lemma_update_byte(0);
    lemma_int_at(Seq::empty(), m, 0x1f, 0x20, enc);
    assert(Seq::<u8>::empty() + ie + enc =~= all);
    if m < 0x1f {
        lemma_update_byte(m as u8);
        assert(all[0] == 0x20u8 | (m as u8));
    } else {
        lemma_update_byte(0x1f);
        assert(all[0] == 0x20u8 | 0x1fu8);
    }
    assert(repr_at(all, 0) == ReprRes::Done(ReprV::SizeUpdate(m), ie.len() as int));
    assert(apply_repr(st, ReprV::SizeUpdate(m)) == Ok::<DecView, crate::h2::error::H2Error>(st1));
    lemma_cont_bytes_nonempty(0);
    lemma_run_step(st, st1, all, 0, ReprV::SizeUpdate(m), ie.len() as int);
    lemma_block_at(st1, es, m, fs, huffman, ie, Seq::empty());
    assert(ie + enc + Seq::<u8>::empty() =~= all);
    reveal(block_state);
    lemma_block_readback(st1, es, m, fs, huffman);
}

/// The fields that the decoder reads are the fields encoded.
pub proof fn lemma_sent_fields_are_fields(es: Seq<(HName, Seq<u8>)>, max: nat, fs: Seq<(HName, Seq<u8>)>, huffman: bool)
    requires
        total_size(es) <= max,
        max <= usize::MAX,
    ensures
        sent_fields(es, max, fs, huffman) == fs,
    decreases fs.len(),
{
    if fs.len() == 0 {
        assert(sent_fields(es, max, fs, huffman) =~= fs);
    } else {
        let q = fs.drop_last();
        lemma_sent_fields_are_fields(es, max, q, huffman);
        lemma_table_fits(es, max, q, huffman);
        let t = fields_encoding(es, max, q, huffman).1;
        lemma_header_index(t, max, fs.last().0, fs.last().1);
        assert(q.push(fs.last()) =~= fs);
    }
}


pub(crate) proof fn lemma_parts_after_concat(p: PartsView, a: Seq<(HName, Seq<u8>)>, b: Seq<(HName, Seq<u8>)>)
    ensures
        parts_after(p, a + b) == parts_after(parts_after(p, a), b),
    decreases b.len(),
{
    if b.len() == 0 {
        assert(a + b =~= a);
    } else {
        lemma_parts_after_concat(p, a, b.drop_last());
        assert((a + b).drop_last() =~= a + b.drop_last());
        assert((a + b).last() == b.last());
    }
}

proof fn lemma_lines_after(ps: crate::pseudo::PseudoView, ls: Seq<(Seq<u8>, Seq<u8>)>, k: int)
    requires
        0 <= k <= ls.len(),
        names_unique(ls),
        forall|i: int| 0 <= i < ls.len() ==> lower_seq(#[trigger] ls[i].0) == ls[i].0,
    ensures
        parts_after((ps, Seq::empty()), Seq::new(k as nat, |i: int| (HName::Other(ls[i].0), ls[i].1))) == (ps, ls.take(k)),
    decreases k,
{
    let f = Seq::new(k as nat, |i: int| (HName::Other(ls[i].0), ls[i].1));
    if k == 0 {
        assert(f =~= Seq::<(HName, Seq<u8>)>::empty());
        assert(ls.take(0) =~= Seq::<(Seq<u8>, Seq<u8>)>::empty());
    } else {
        let g = Seq::new((k - 1) as nat, |i: int| (HName::Other(ls[i].0), ls[i].1));
        assert(f.drop_last() =~= g);
        lemma_lines_after(ps, ls, k - 1);
        let prev = ls.take(k - 1);
        let name = ls[k - 1].0;
        assert(lower_seq(ls[k - 1].0) == name);
        assert forall|i: int| !first_with_name(prev, name, i) by {
            if 0 <= i < prev.len() {
                assert(prev[i] == ls[i]);
            }
        }
        assert(find_name(prev, name) is None);
        assert(appended(prev, name, ls[k - 1].1) =~= ls.take(k));
    }
}

proof fn lemma_parts_after_opt(p: PartsView, h: HName, o: Option<Seq<u8>>)
    ensures
        parts_after(p, opt_field(h, o)) == (match o {
            Some(v) => parts_updated(p, h, v),
            None => p,
        }),
{
    match o {
        Some(v) => {
            let f = opt_field(h, o);
            assert(f.drop_last() =~= Seq::<(HName, Seq<u8>)>::empty());
            assert(f.last() == (h, v));
            assert(parts_after(p, f.drop_last()) == p);
        },
        None => {
            assert(opt_field(h, o) =~= Seq::<(HName, Seq<u8>)>::empty());
        },
    }
}

/// The fields of a header block, added in order to an empty block, give the
/// block back, when its field names are lower case and each occurs once.
pub proof fn lemma_parts_fields_read_back(pv: PartsView)
    requires
        names_unique(pv.1),
        forall|i: int| 0 <= i < pv.1.len() ==> lower_seq(#[trigger] pv.1[i].0) == pv.1[i].0,
    ensures
        parts_after(empty_parts(), parts_fields(pv)) == pv,
{
    let ps = pv.0;
    let a = opt_field(HName::Method, ps.1);
    let b = opt_field(HName::Scheme, ps.3);
    let c = opt_field(HName::Path, ps.2);
    let d = opt_field(HName::Authority, ps.0);
    let e = opt_field(HName::Status, ps.4);
    let l = Seq::new(pv.1.len(), |i: int| (HName::Other(pv.1[i].0), pv.1[i].1));
    let p0 = empty_parts();
    let n: Option<Seq<u8>> = None;
    let z = Seq::<(Seq<u8>, Seq<u8>)>::empty();
    lemma_parts_after_concat(p0, a + b + c + d + e, l);
    lemma_parts_after_concat(p0, a + b + c + d, e);
    lemma_parts_after_concat(p0, a + b + c, d);
    lemma_parts_after_concat(p0, a + b, c);
    lemma_parts_after_concat(p0, a, b);
    let q1 = parts_after(p0, a);
    let q2 = parts_after(q1, b);
    let q3 = parts_after(q2, c);
    let q4 = parts_after(q3, d);
    let q5 = parts_after(q4, e);
    lemma_parts_after_opt(p0, HName::Method, ps.1);
    assert(q1 == ((n, ps.1, n, n, n), z));
    lemma_parts_after_opt(q1, HName::Scheme, ps.3);
    assert(q2 == ((n, ps.1, n, ps.3, n), z));
    lemma_parts_after_opt(q2, HName::Path, ps.2);
    assert(q3 == ((n, ps.1, ps.2, ps.3, n), z));
    lemma_parts_after_opt(q3, HName::Authority, ps.0);
    assert(q4 == ((ps.0, ps.1, ps.2, ps.3, n), z));
    lemma_parts_after_opt(q4, HName::Status, ps.4);
    assert(q5 == (ps, z));
    lemma_lines_after(ps, pv.1, pv.1.len() as int);
    assert(pv.1.take(pv.1.len() as int) =~= pv.1);
    assert(l =~= Seq::new(pv.1.len() as nat, |i: int| (HName::Other(pv.1[i].0), pv.1[i].1)));
}

} // verus!
