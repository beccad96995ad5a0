//! Header blocks read back in fragments: a block cut anywhere is read up
//! to the last field that ends before the cut, and the rest waits for the
//! next fragment.
use vstd::prelude::*;
use vstd::arithmetic::power2::pow2;
use crate::h2::hpack::integer::{cont_bytes, int_encoding, is_prefix_mask};
use crate::h2::hpack::representation::{int_at, int_cont, repr_at, str_at, IntRes, ReprRes, StrRes};
use crate::h2::hpack::encoder::{field_encoding, fields_encoding, str_encoding};
use crate::h2::hpack::decoder::{run_reprs, DecView};
use crate::h2::hpack::readback::{
    block_ok, block_state, coded, field_ok, lemma_name_index_byte, lemma_block_ok_prefix, lemma_field_step, lemma_header_index, lemma_int_at,
    lemma_last_field, lemma_run_step, lemma_str_at, lines_size, parts_after, sent_field, sent_fields, state_after,
};
use crate::h2::hpack::table::{combined_index, hname_bytes, total_size, HName, TableIndex};

verus! {

/// Continuation octets cut before their end read as incomplete.
proof fn lemma_cont_cut(a: Seq<u8>, x: nat, t: nat, value: nat, k: nat)
    requires
        int_cont(a + cont_bytes(x), a.len() as int, value, k) is Done,
        t < cont_bytes(x).len(),
    ensures
        int_cont(a + cont_bytes(x).take(t as int), a.len() as int, value, k) == IntRes::Incomplete,
    decreases x,
{
    let full = a + cont_bytes(x);
    let cut = a + cont_bytes(x).take(t as int);
    let pos = a.len() as int;
    if t == 0 {
        assert(cut =~= a);
    } else if x >= 128 {
        let b = (x % 128 + 128) as u8;
        let q = x / 128;
        let a2 = a.push(b);
        assert(full =~= a2 + cont_bytes(q));
        assert(cut =~= a2 + cont_bytes(q).take(t - 1));
        assert(cut[pos] == b);
        assert(full[pos] == b);
        lemma_cont_cut(a2, q, (t - 1) as nat, value + (b % 128) as nat * pow2(7 * k), k + 1);
    }
}

/// An integer encoded after `a`, cut before its end, reads as incomplete.
pub proof fn lemma_int_cut(a: Seq<u8>, i: nat, mask: u8, pre: u8, t: nat)
    requires
        is_prefix_mask(mask),
        mask < 255,
        pre & mask == 0,
        i <= usize::MAX,
        t < int_encoding(i, mask, pre).len(),
    ensures
        int_at(a + int_encoding(i, mask, pre).take(t as int), a.len() as int, mask) == IntRes::Incomplete,
{
    let enc = int_encoding(i, mask, pre);
    let cut = a + enc.take(t as int);
    let pos = a.len() as int;
    if t == 0 {
        assert(cut =~= a);
    } else {
        assert(i >= mask);
        lemma_int_at(a, i, mask, pre, Seq::empty());
        let full = a + enc;
        assert(a + enc + Seq::<u8>::empty() =~= full);
        let x = (i - mask) as nat;
        let a2 = a.push(pre | mask);
        assert(full =~= a2 + cont_bytes(x));
        assert(cut =~= a2 + cont_bytes(x).take(t - 1));
        assert(((pre | mask) & mask) == mask) by (bit_vector);
        assert(cut[pos] == pre | mask);
        assert(full[pos] == pre | mask);
        lemma_cont_cut(a2, x, (t - 1) as nat, mask as nat, 0);
    }
}

/// A string literal encoded after `a`, cut before its end, reads as
/// incomplete.
pub proof fn lemma_str_cut(a: Seq<u8>, s: Seq<u8>, huffman: bool, t: nat)
    requires
        coded(s, huffman).len() <= usize::MAX,
        t < str_encoding(s, huffman).len(),
    ensures
        str_at(a + str_encoding(s, huffman).take(t as int), a.len() as int) == StrRes::Incomplete,
{
    let e = coded(s, huffman);
    let pre: u8 = if huffman { 0x80 } else { 0 };
    let ie = int_encoding(e.len(), 0x7f, pre);
    let se = str_encoding(s, huffman);
    assert(se == ie + e);
    let cut = a + se.take(t as int);
    assert(pre & 0x7f == 0) by (bit_vector)
        requires
            pre == 0x80 || pre == 0;
    if t < ie.len() {
        assert(cut =~= a + ie.take(t as int));
        lemma_int_cut(a, e.len(), 0x7f, pre, t);
    } else {
        let part = e.take(t - ie.len());
        assert(cut =~= a + ie + part);
        lemma_int_at(a, e.len(), 0x7f, pre, part);
    }
}

/// A field encoded after `a` from the table `es`, cut before its end,
/// reads as incomplete.
pub proof fn lemma_field_cut(es: Seq<(HName, Seq<u8>)>, max: nat, h: HName, v: Seq<u8>, huffman: bool, a: Seq<u8>, t: nat)
    requires
        total_size(es) <= max,
        max <= usize::MAX,
        coded(v, huffman).len() <= usize::MAX,
        coded(hname_bytes(h), huffman).len() <= usize::MAX,
        t < field_encoding(es, max, h, v, huffman).0.len(),
    ensures
        repr_at(a + field_encoding(es, max, h, v, huffman).0.take(t as int), a.len() as int) == ReprRes::Incomplete,
{
    let e = field_encoding(es, max, h, v, huffman).0;
    let cut = a + e.take(t as int);
    let pos = a.len() as int;
    lemma_header_index(es, max, h, v);
    if t == 0 {
        assert(cut =~= a);
    } else {
        match combined_index(es, h, v) {
            Some(TableIndex::Header(i)) => {
                assert(e == int_encoding(i as nat, 0x7f, 0x80));
                assert(0x80u8 & 0x7fu8 == 0) by (bit_vector);
                lemma_int_cut(a, i as nat, 0x7f, 0x80, t);
                assert(cut[pos] == e[0]);
                if i < 0x7f {
                    let x = i as u8;
                    assert((0x80u8 | x) >= 128) by (bit_vector);
                } else {
                    assert((0x80u8 | 0x7fu8) >= 128) by (bit_vector);
                }
            },
            Some(TableIndex::HeaderName(x)) => {
                let ie = int_encoding(x as nat, 0x3f, 0x40);
                let se = str_encoding(v, huffman);
                assert(e == ie + se);
                assert(0x40u8 & 0x3fu8 == 0) by (bit_vector);
                if x < 0x3f {
                    let xb = x as u8;
                    assert(cut[pos] == 0x40u8 | xb);
                    lemma_name_index_byte(xb);
                } else {
                    assert(cut[pos] == 0x40u8 | 0x3fu8);
                    lemma_name_index_byte(0x3f);
                }
                if t < ie.len() {
                    assert(cut =~= a + ie.take(t as int));
                    lemma_int_cut(a, x as nat, 0x3f, 0x40, t);
                } else {
                    let part = se.take(t - ie.len());
                    assert(cut =~= a + ie + part);
                    lemma_int_at(a, x as nat, 0x3f, 0x40, part);
                    lemma_str_cut(a + ie, v, huffman, (t - ie.len()) as nat);
                }
            },
            None => {
                let nb = hname_bytes(h);
                let s1 = str_encoding(nb, huffman);
                let s2 = str_encoding(v, huffman);
                assert(e == seq![0x40u8] + s1 + s2);
                assert(cut[pos] == 0x40u8);
                assert(0x40u8 & 0x3fu8 == 0) by (bit_vector);
                assert(int_at(cut, pos, 0x3f) == IntRes::Done(0, pos + 1));
                let a1 = a.push(0x40u8);
                if t - 1 < s1.len() {
                    assert(cut =~= a1 + s1.take(t - 1));
                    lemma_str_cut(a1, nb, huffman, (t - 1) as nat);
                } else {
                    let part = s2.take(t - 1 - s1.len());
                    assert(cut =~= a1 + s1 + part);
                    lemma_str_at(a1, nb, huffman, part);
                    lemma_str_cut(a1 + s1, v, huffman, (t - 1 - s1.len()) as nat);
                }
            },
        }
    }
}

/// The number of fields of a block whose encodings end by octet `c` of
/// the block's encoding.
pub open spec fn fields_before(es: Seq<(HName, Seq<u8>)>, max: nat, fs: Seq<(HName, Seq<u8>)>, huffman: bool, c: int) -> nat
    decreases fs.len(),
{
    if fs.len() == 0 || fields_encoding(es, max, fs, huffman).0.len() <= c {
        fs.len()
    } else {
        fields_before(es, max, fs.drop_last(), huffman, c)
    }
}

/// Where the encoding of the first `j` fields of a block ends.
pub open spec fn end_of(es: Seq<(HName, Seq<u8>)>, max: nat, fs: Seq<(HName, Seq<u8>)>, huffman: bool, j: int) -> int {
    fields_encoding(es, max, fs.take(j), huffman).0.len() as int
}

/// The encoding of the first `j` fields begins the encoding of the block.
proof fn lemma_enc_prefix(es: Seq<(HName, Seq<u8>)>, max: nat, fs: Seq<(HName, Seq<u8>)>, huffman: bool, j: int)
    requires
        0 <= j <= fs.len(),
    ensures
        end_of(es, max, fs, huffman, j) <= fields_encoding(es, max, fs, huffman).0.len(),
        fields_encoding(es, max, fs, huffman).0.take(end_of(es, max, fs, huffman, j)) == fields_encoding(es, max, fs.take(j), huffman).0,
    decreases fs.len(),
{
    if j == fs.len() {
        assert(fs.take(j) =~= fs);
        assert(fields_encoding(es, max, fs, huffman).0.take(end_of(es, max, fs, huffman, j)) =~= fields_encoding(es, max, fs, huffman).0);
    } else {
        let q = fs.drop_last();
        lemma_enc_prefix(es, max, q, huffman, j);
        assert(q.take(j) =~= fs.take(j));
        let u = fields_encoding(es, max, fs.take(j), huffman).0;
        let eq = fields_encoding(es, max, q, huffman).0;
        let e = fields_encoding(es, max, fs, huffman).0;
        assert(e.take(u.len() as int) =~= eq.take(u.len() as int));
    }
}

/// The ends of the first fields grow with their number.
proof fn lemma_end_grows(es: Seq<(HName, Seq<u8>)>, max: nat, fs: Seq<(HName, Seq<u8>)>, huffman: bool, i: int, j: int)
    requires
        0 <= i <= j <= fs.len(),
    ensures
        end_of(es, max, fs, huffman, i) <= end_of(es, max, fs, huffman, j),
{
    lemma_enc_prefix(es, max, fs.take(j), huffman, i);
    assert(fs.take(j).take(i) =~= fs.take(i));
}

/// The fields that end by `c`: all of them, or up to one that ends after.
proof fn lemma_fields_before(es: Seq<(HName, Seq<u8>)>, max: nat, fs: Seq<(HName, Seq<u8>)>, huffman: bool, c: int)
    requires
        0 <= c,
    ensures
        fields_before(es, max, fs, huffman, c) <= fs.len(),
        end_of(es, max, fs, huffman, fields_before(es, max, fs, huffman, c) as int) <= c,
        fields_before(es, max, fs, huffman, c) < fs.len() ==> end_of(es, max, fs, huffman, fields_before(es, max, fs, huffman, c) + 1int) > c,
    decreases fs.len(),
{
    let m = fields_before(es, max, fs, huffman, c);
    if fs.len() == 0 {
        assert(fs.take(0) =~= fs);
    } else if fields_encoding(es, max, fs, huffman).0.len() <= c {
        assert(fs.take(fs.len() as int) =~= fs);
    } else {
        let q = fs.drop_last();
        lemma_fields_before(es, max, q, huffman, c);
        assert(q.take(m as int) =~= fs.take(m as int));
        if m + 1 < fs.len() {
            assert(q.take(m + 1int) =~= fs.take(m + 1int));
        } else {
            assert(fs.take(m + 1int) =~= fs);
        }
    }
}

/// A block whose conditions hold has them for its first `j` fields.
proof fn lemma_block_ok_take(st: DecView, es: Seq<(HName, Seq<u8>)>, max: nat, fs: Seq<(HName, Seq<u8>)>, huffman: bool, j: int)
    requires
        block_ok(st, es, max, fs, huffman),
        0 <= j <= fs.len(),
    ensures
        block_ok(st, es, max, fs.take(j), huffman),
    decreases fs.len(),
{
    if j == fs.len() {
        assert(fs.take(j) =~= fs);
    } else {
        lemma_block_ok_prefix(st, es, max, fs, huffman);
        lemma_block_ok_take(st, es, max, fs.drop_last(), huffman, j);
        assert(fs.drop_last().take(j) =~= fs.take(j));
    }
}

/// Field `j` of a block: its encoding lies between the ends of the first
/// `j` and `j + 1` fields, and it is read from the state the first `j`
/// leave into the state the first `j + 1` leave.
proof fn lemma_field_j(st: DecView, es: Seq<(HName, Seq<u8>)>, max: nat, fs: Seq<(HName, Seq<u8>)>, huffman: bool, j: int)
    requires
        block_ok(st, es, max, fs, huffman),
        0 <= j < fs.len(),
    ensures
        ({
            let t = fields_encoding(es, max, fs.take(j), huffman).1;
            let (h, v) = fs[j];
            let e = field_encoding(t, max, h, v, huffman);
            let mid = block_state(st, es, max, fs.take(j), huffman);
            &&& field_ok(mid, t, max, h, v, huffman)
            &&& state_after(mid, e.1, sent_field(t, h, v)) == block_state(st, es, max, fs.take(j + 1), huffman)
            &&& end_of(es, max, fs, huffman, j + 1) == end_of(es, max, fs, huffman, j) + e.0.len()
            &&& e.0 == fields_encoding(es, max, fs, huffman).0.subrange(end_of(es, max, fs, huffman, j), end_of(es, max, fs, huffman, j + 1))
        }),
{
    let f1 = fs.take(j + 1);
    lemma_block_ok_take(st, es, max, fs, huffman, j + 1);
    lemma_last_field(st, es, max, f1, huffman);
    assert(f1.drop_last() =~= fs.take(j));
    assert(f1.last() == fs[j]);
    lemma_enc_prefix(es, max, fs, huffman, j + 1);
    let u1 = fields_encoding(es, max, f1, huffman).0;
    let u0 = fields_encoding(es, max, fs.take(j), huffman).0;
    let e = fields_encoding(es, max, fs, huffman).0;
    assert(e.subrange(u0.len() as int, u1.len() as int) =~= u1.subrange(u0.len() as int, u1.len() as int));
}

/// Reading stops where the last field that ends by `c` ends: at the end
/// of the octets, or at a field cut off.
proof fn lemma_run_stop(st: DecView, es: Seq<(HName, Seq<u8>)>, max: nat, fs: Seq<(HName, Seq<u8>)>, huffman: bool, lo: int, c: int)
    requires
        block_ok(st, es, max, fs, huffman),
        0 <= lo <= end_of(es, max, fs, huffman, fields_before(es, max, fs, huffman, c) as int),
        0 <= c <= fields_encoding(es, max, fs, huffman).0.len(),
    ensures
        ({
            let m = fields_before(es, max, fs, huffman, c) as int;
            run_reprs(
                block_state(st, es, max, fs.take(m), huffman),
                fields_encoding(es, max, fs, huffman).0.subrange(lo, c),
                end_of(es, max, fs, huffman, m) - lo,
            ) == Ok::<(DecView, int), crate::h2::error::H2Error>(
                (block_state(st, es, max, fs.take(m), huffman), end_of(es, max, fs, huffman, m) - lo),
            )
        }),
{
    let m = fields_before(es, max, fs, huffman, c) as int;
    let n = fs.len() as int;
    let e = fields_encoding(es, max, fs, huffman).0;
    lemma_fields_before(es, max, fs, huffman, c);
    let b = e.subrange(lo, c);
    let pm = end_of(es, max, fs, huffman, m);
    if m == n {
        assert(fs.take(n) =~= fs);
    } else {
        lemma_field_j(st, es, max, fs, huffman, m);
        let t = fields_encoding(es, max, fs.take(m), huffman).1;
        let (h, v) = fs[m];
        let em = field_encoding(t, max, h, v, huffman).0;
        let a = e.subrange(lo, pm);
        lemma_enc_prefix(es, max, fs, huffman, m + 1);
        assert(em.len() > c - pm);
        assert forall|i: int| 0 <= i < c - pm implies #[trigger] em.take(c - pm)[i] == b[pm - lo + i] by {
            assert(em[i] == e[pm + i]);
        }
        assert(b =~= a + em.take(c - pm));
        lemma_field_cut(t, max, h, v, huffman, a, (c - pm) as nat);
    }
    assert(repr_at(b, pm - lo) == ReprRes::Incomplete);
}

proof fn lemma_layout(e: Seq<u8>, lo: int, pj: int, pk: int, c: int)
    requires
        0 <= lo <= pj <= pk <= c <= e.len(),
    ensures
        e.subrange(lo, c) == e.subrange(lo, pj) + e.subrange(pj, pk) + e.subrange(pk, c),
{
    assert(e.subrange(lo, c) =~= e.subrange(lo, pj) + e.subrange(pj, pk) + e.subrange(pk, c));
}

/// Reading field `j` of the octets `lo` to `c` of a block's encoding, when
/// it ends by `c`.
#[verifier::spinoff_prover]
proof fn lemma_run_one(st: DecView, es: Seq<(HName, Seq<u8>)>, max: nat, fs: Seq<(HName, Seq<u8>)>, huffman: bool, lo: int, c: int, j: int)
    requires
        block_ok(st, es, max, fs, huffman),
        0 <= j < fs.len(),
        0 <= lo <= end_of(es, max, fs, huffman, j),
        end_of(es, max, fs, huffman, j + 1) <= c <= fields_encoding(es, max, fs, huffman).0.len(),
    ensures
        run_reprs(
            block_state(st, es, max, fs.take(j), huffman),
            fields_encoding(es, max, fs, huffman).0.subrange(lo, c),
            end_of(es, max, fs, huffman, j) - lo,
        ) == run_reprs(
            block_state(st, es, max, fs.take(j + 1), huffman),
            fields_encoding(es, max, fs, huffman).0.subrange(lo, c),
            end_of(es, max, fs, huffman, j + 1) - lo,
        ),
{
    let e = fields_encoding(es, max, fs, huffman).0;
    let b = e.subrange(lo, c);
    let pj = end_of(es, max, fs, huffman, j);
    lemma_field_j(st, es, max, fs, huffman, j);
    let t = fields_encoding(es, max, fs.take(j), huffman).1;
    let (h, v) = fs[j];
    let ej = field_encoding(t, max, h, v, huffman).0;
    let pk = end_of(es, max, fs, huffman, j + 1);
    let a = e.subrange(lo, pj);
    let rest = e.subrange(pk, c);
    lemma_layout(e, lo, pj, pk, c);
    let mid = block_state(st, es, max, fs.take(j), huffman);
    lemma_field_step(mid, t, max, h, v, huffman, a, rest);
    match repr_at(a + ej + rest, a.len() as int) {
        ReprRes::Done(r, p) => {
            lemma_run_step(mid, block_state(st, es, max, fs.take(j + 1), huffman), b, pj - lo, r, p);
        },
        _ => {},
    }
}

/// Reading octets `lo` to `c` of a block's encoding from where field `j`
/// begins goes on to where the last field that ends by `c` ends.
proof fn lemma_run_from(st: DecView, es: Seq<(HName, Seq<u8>)>, max: nat, fs: Seq<(HName, Seq<u8>)>, huffman: bool, lo: int, c: int, j: int)
    requires
        block_ok(st, es, max, fs, huffman),
        0 <= lo <= end_of(es, max, fs, huffman, j),
        0 <= c <= fields_encoding(es, max, fs, huffman).0.len(),
        0 <= j <= fields_before(es, max, fs, huffman, c),
    ensures
        ({
            let m = fields_before(es, max, fs, huffman, c) as int;
            run_reprs(
                block_state(st, es, max, fs.take(j), huffman),
                fields_encoding(es, max, fs, huffman).0.subrange(lo, c),
                end_of(es, max, fs, huffman, j) - lo,
            ) == Ok::<(DecView, int), crate::h2::error::H2Error>(
                (block_state(st, es, max, fs.take(m), huffman), end_of(es, max, fs, huffman, m) - lo),
            )
        }),
    decreases fields_before(es, max, fs, huffman, c) - j,
{
    let m = fields_before(es, max, fs, huffman, c) as int;
    lemma_fields_before(es, max, fs, huffman, c);
    lemma_end_grows(es, max, fs, huffman, j, m);
    if j == m {
        lemma_run_stop(st, es, max, fs, huffman, lo, c);
    } else {
        lemma_end_grows(es, max, fs, huffman, j + 1, m);
        lemma_end_grows(es, max, fs, huffman, j, j + 1);
        lemma_run_one(st, es, max, fs, huffman, lo, c, j);
        lemma_run_from(st, es, max, fs, huffman, lo, c, j + 1);
    }
}

/// A header block that the HPACK encoder writes, delivered in fragments:
/// when the octets up to `c0` have come, the decoder has read the fields
/// whose encodings end by `c0` and holds the rest; when the octets from
/// there up to `c` follow, it reads on to the fields that end by `c` and
/// holds what follows them. Under the conditions of [`block_ok`].
pub proof fn lemma_fragment_readback(st: DecView, es: Seq<(HName, Seq<u8>)>, max: nat, fs: Seq<(HName, Seq<u8>)>, huffman: bool, c0: int, c: int)
    requires
        block_ok(st, es, max, fs, huffman),
        0 <= c0 <= c <= fields_encoding(es, max, fs, huffman).0.len(),
    ensures
        ({
            let k = fields_before(es, max, fs, huffman, c0) as int;
            let m = fields_before(es, max, fs, huffman, c) as int;
            let pk = end_of(es, max, fs, huffman, k);
            &&& k <= m
            &&& pk <= c0
            &&& pk <= end_of(es, max, fs, huffman, m) <= c
            &&& run_reprs(block_state(st, es, max, fs.take(k), huffman), fields_encoding(es, max, fs, huffman).0.subrange(pk, c), 0)
                == Ok::<(DecView, int), crate::h2::error::H2Error>(
                (block_state(st, es, max, fs.take(m), huffman), end_of(es, max, fs, huffman, m) - pk),
            )
        }),
{
    let k = fields_before(es, max, fs, huffman, c0) as int;
    let m = fields_before(es, max, fs, huffman, c) as int;
    lemma_fields_before(es, max, fs, huffman, c0);
    lemma_fields_before(es, max, fs, huffman, c);
    if k > m {
        lemma_end_grows(es, max, fs, huffman, m + 1, k);
    }
    lemma_run_from(st, es, max, fs, huffman, end_of(es, max, fs, huffman, k), c, k);
    lemma_end_grows(es, max, fs, huffman, k, m);
}

/// Before any octet of a block, no field has been read: the decoder is in
/// the state it started in.
pub proof fn lemma_fragment_start(st: DecView, es: Seq<(HName, Seq<u8>)>, max: nat, fs: Seq<(HName, Seq<u8>)>, huffman: bool)
    requires
        block_ok(st, es, max, fs, huffman),
    ensures
        fields_before(es, max, fs, huffman, 0) == 0,
        end_of(es, max, fs, huffman, 0) == 0,
        block_state(st, es, max, fs.take(0), huffman) == st,
{
    let k = fields_before(es, max, fs, huffman, 0) as int;
    lemma_fields_before(es, max, fs, huffman, 0);
    assert(fs.take(0) =~= Seq::<(HName, Seq<u8>)>::empty());
    if k > 0 {
        lemma_field_j(st, es, max, fs, huffman, 0);
        let t = fields_encoding(es, max, fs.take(0), huffman).1;
        let (h, v) = fs[0];
        lemma_field_step(block_state(st, es, max, fs.take(0), huffman), t, max, h, v, huffman, Seq::empty(), Seq::empty());
        lemma_end_grows(es, max, fs, huffman, 1, k);
    }
    reveal(block_ok);
    reveal(block_state);
    let sent = sent_fields(es, max, fs.take(0), huffman);
    assert(sent =~= Seq::<(HName, Seq<u8>)>::empty());
    assert(parts_after(st.2, sent) == st.2);
    assert(lines_size(sent) == 0);
}

/// After all octets of a block, every field has been read.
pub proof fn lemma_fragment_end(st: DecView, es: Seq<(HName, Seq<u8>)>, max: nat, fs: Seq<(HName, Seq<u8>)>, huffman: bool)
    ensures
        ({
            let n = fs.len() as int;
            let c = fields_encoding(es, max, fs, huffman).0.len() as int;
            &&& fields_before(es, max, fs, huffman, c) == n
            &&& end_of(es, max, fs, huffman, n) == c
            &&& fs.take(n) == fs
        }),
{
    assert(fs.take(fs.len() as int) =~= fs);
}

} // verus!
