//! Small byte-sequence helpers shared by the codecs.
use vstd::prelude::*;
use vstd::string::*;

verus! {

broadcast use vstd::string::group_string_axioms;

/// The bytes of an ASCII string.
pub open spec fn ascii_bytes(s: &str) -> Seq<u8> {
    Seq::new(s@.len(), |i: int| s@[i] as u8)
}

/// Returns the bytes of an ASCII string literal.
pub fn lit(s: &str) -> (r: Vec<u8>)
    requires
        is_ascii(s),
    ensures
        r@ == ascii_bytes(s),
{
    broadcast use is_ascii_spec_bytes;
    s.as_bytes_vec()
}

/// Lower-cases an ASCII letter, leaving every other byte unchanged.
pub open spec fn lower_byte(b: u8) -> u8 {
    if 0x41 <= b <= 0x5a { (b + 0x20) as u8 } else { b }
}

/// Lower-cases every ASCII letter of a byte sequence.
pub open spec fn lower_seq(s: Seq<u8>) -> Seq<u8> {
    Seq::new(s.len(), |i: int| lower_byte(s[i]))
}

/// Returns a fresh vector holding the bytes of `src`.
pub fn copy_bytes(src: &[u8]) -> (r: Vec<u8>)
    ensures
        r@ == src@,
{
    let mut r: Vec<u8> = Vec::new();
    let mut i: usize = 0;
    while i < src.len()
        invariant
            i <= src@.len(),
            r@ == src@.subrange(0, i as int),
        decreases src@.len() - i,
    {
        r.push(src[i]);
        i = i + 1;
    }
    r
}

/// Appends the bytes of `src` to `dst`.
pub fn push_bytes(dst: &mut Vec<u8>, src: &[u8])
    ensures
        final(dst)@ == old(dst)@ + src@,
{
    let ghost start = dst@;
    let mut i: usize = 0;
    while i < src.len()
        invariant
            i <= src@.len(),
            dst@ == start + src@.subrange(0, i as int),
        decreases src@.len() - i,
    {
        dst.push(src[i]);
        i = i + 1;
    }
}

/// Returns the bytes of `src` with every ASCII letter lower-cased.
pub fn to_lower(src: &[u8]) -> (r: Vec<u8>)
    ensures
        r@ == lower_seq(src@),
{
    let mut r: Vec<u8> = Vec::new();
    let mut i: usize = 0;
    while i < src.len()
        invariant
            i <= src@.len(),
            r@ == lower_seq(src@.subrange(0, i as int)),
        decreases src@.len() - i,
    {
        let b = src[i];
        let l: u8 = if 0x41 <= b && b <= 0x5a { b + 0x20 } else { b };
        r.push(l);
        i = i + 1;
        assert(r@ =~= lower_seq(src@.subrange(0, i as int)));
    }
    assert(src@.subrange(0, src@.len() as int) =~= src@);
    r
}

/// Copies octets of `tok` from position `idx` into `buf` from position
/// `at`, as many as both have room for.
pub fn write_piece(tok: &[u8], idx: usize, buf: &mut [u8], at: usize) -> (n: usize)
    requires
        idx <= tok@.len(),
        at <= old(buf)@.len(),
    ensures
        n == if tok@.len() - idx < old(buf)@.len() - at { tok@.len() - idx } else { old(buf)@.len() - at },
        final(buf)@ == old(buf)@.subrange(0, at as int) + tok@.subrange(idx as int, idx + n)
            + old(buf)@.subrange(at + n, old(buf)@.len() as int),
        idx + n <= usize::MAX,
        at + n <= usize::MAX,
{
    let n = if tok.len() - idx < buf.len() - at { tok.len() - idx } else { buf.len() - at };
    let _end1 = idx + n;
    let _end2 = at + n;
    assert(idx + n <= tok@.len() && at + n <= buf@.len());
    let mut i: usize = 0;
    while i < n
        invariant
            i <= n,
            idx + n <= tok@.len(),
            idx + n <= usize::MAX,
            at + n <= usize::MAX,
            at + n <= buf@.len(),
            buf@.len() == old(buf)@.len(),
            forall|j: int| 0 <= j < at ==> buf@[j] == old(buf)@[j],
            forall|j: int| at <= j < at + i ==> buf@[j] == tok@[idx + (j - at)],
            forall|j: int| at + i <= j < buf@.len() ==> buf@[j] == old(buf)@[j],
        decreases n - i,
    {
        buf[at + i] = tok[idx + i];
        i = i + 1;
    }
    assert(buf@ =~= old(buf)@.subrange(0, at as int) + tok@.subrange(idx as int, idx + n)
        + old(buf)@.subrange(at + n, old(buf)@.len() as int));
    n
}

/// Compares two byte slices for equality.
pub fn bytes_eq(a: &[u8], b: &[u8]) -> (r: bool)
    ensures
        r == (a@ == b@),
{
    if a.len() != b.len() {
        return false;
    }
    let mut i: usize = 0;
    while i < a.len()
        invariant
            a@.len() == b@.len(),
            i <= a@.len(),
            forall|j: int| 0 <= j < i ==> a@[j] == b@[j],
        decreases a@.len() - i,
    {
        if a[i] != b[i] {
            return false;
        }
        i = i + 1;
    }
    assert(a@ =~= b@);
    true
}

/// The octets that successive writes into buffers of the given sizes take
/// from `rest`, each as many of what is left as fit: the output of
/// `ChunkBody::data`, `RequestEncoder::encode`, `HpackEncoder::encode`, and
/// of `FrameEncoder::encode` outside the start of a CONTINUATION frame.
pub open spec fn written_in_pieces(rest: Seq<u8>, sizes: Seq<nat>) -> Seq<u8>
    decreases sizes.len(),
{
    if sizes.len() == 0 {
        Seq::empty()
    } else {
        let n: int = if sizes[0] < rest.len() { sizes[0] as int } else { rest.len() as int };
        rest.subrange(0, n) + written_in_pieces(rest.subrange(n, rest.len() as int), sizes.drop_first())
    }
}

/// The sum of buffer sizes.
pub open spec fn total_of(sizes: Seq<nat>) -> nat
    decreases sizes.len(),
{
    if sizes.len() == 0 {
        0
    } else {
        sizes[0] + total_of(sizes.drop_first())
    }
}

/// Writing in pieces does not depend on how the output is cut: buffers of
/// any sizes receive, one after the other, the beginning of what is to be
/// written, as long as their sizes add up to, and all of it once they
/// reach its length.
pub proof fn lemma_written_in_pieces(rest: Seq<u8>, sizes: Seq<nat>)
    ensures
        written_in_pieces(rest, sizes) == rest.subrange(
            0,
            if total_of(sizes) < rest.len() { total_of(sizes) as int } else { rest.len() as int },
        ),
    decreases sizes.len(),
{
    if sizes.len() == 0 {
        assert(rest.subrange(0, 0) =~= Seq::<u8>::empty());
    } else {
        let n: int = if sizes[0] < rest.len() { sizes[0] as int } else { rest.len() as int };
        let r2 = rest.subrange(n, rest.len() as int);
        lemma_written_in_pieces(r2, sizes.drop_first());
        let t = total_of(sizes.drop_first());
        let m: int = if t < r2.len() { t as int } else { r2.len() as int };
        assert(rest.subrange(0, n) + r2.subrange(0, m) =~= rest.subrange(0, n + m));
    }
}

} // verus!
