//! Integer representation of HPACK (RFC 7541, section 5.1): an integer
//! starts in the low bits of an octet (its prefix) and, when it does not fit
//! there, continues in 7-bit groups, least significant first, each octet but
//! the last having its high bit set.
use vstd::prelude::*;
use vstd::bits::*;
use vstd::arithmetic::power2::*;
use crate::h2::error::{ErrorCode, H2Error};

verus! {

/// The value carried by continuation octets, least significant group first.
pub open spec fn cont_value(bs: Seq<u8>) -> nat
    decreases bs.len(),
{
    if bs.len() == 0 {
        0
    } else {
        (bs[0] % 128) as nat + 128 * cont_value(bs.drop_first())
    }
}

/// The continuation octets that encode `x`.
pub open spec fn cont_bytes(x: nat) -> Seq<u8>
    decreases x,
{
    if x >= 128 {
        seq![(x % 128 + 128) as u8] + cont_bytes(x / 128)
    } else {
        seq![x as u8]
    }
}

/// The octets encoding `i` with prefix mask `mask`, the bits of `pre` set in
/// the first octet.
pub open spec fn int_encoding(i: nat, mask: u8, pre: u8) -> Seq<u8> {
    if i < mask {
        seq![pre | (i as u8)]
    } else {
        seq![pre | mask] + cont_bytes((i - mask) as nat)
    }
}

/// Index of the first octet without its high bit, from `k` on.
pub open spec fn cont_end(bs: Seq<u8>, k: int) -> Option<int>
    decreases bs.len() - k,
{
    if k < 0 || k >= bs.len() {
        None
    } else if bs[k] < 128 {
        Some(k)
    } else {
        cont_end(bs, k + 1)
    }
}

/// Decodes an integer with prefix mask `mask` at the start of `bs`: its
/// value and the number of octets it takes, or `None` if `bs` ends first.
pub open spec fn int_decoding(bs: Seq<u8>, mask: u8) -> Option<(nat, nat)> {
    if bs.len() == 0 {
        None
    } else if (bs[0] & mask) < mask {
        Some(((bs[0] & mask) as nat, 1nat))
    } else {
        match cont_end(bs, 1) {
            Some(e) => Some(((mask as nat) + cont_value(bs.subrange(1, e + 1)), (e + 1) as nat)),
            None => None,
        }
    }
}

/// The masks of an N-bit prefix, 1 <= N <= 8.
pub open spec fn is_prefix_mask(mask: u8) -> bool {
    mask == 1 || mask == 3 || mask == 7 || mask == 15 || mask == 31 || mask == 63 || mask == 127
        || mask == 255
}

/// Incremental decoder for an integer whose prefix did not fit in the first
/// octet.
pub struct IntegerDecoder {
    index: usize,
    shift: u32,
}

impl IntegerDecoder {
    /// The value decoded so far.
    pub closed spec fn value(&self) -> nat {
        self.index as nat
    }

    /// The number of continuation octets consumed so far.
    pub closed spec fn consumed(&self) -> nat {
        ((self.shift - 1) / 7) as nat
    }

    /// The decoder's shift follows the octets consumed.
    pub closed spec fn wf(&self) -> bool {
        &&& self.shift >= 1
        &&& (self.shift - 1) % 7 == 0
        &&& self.shift <= usize::BITS + 8
    }

    /// Decodes the prefix of the first octet: the value itself if it fits,
    /// otherwise a decoder waiting for continuation octets.
    pub fn first_byte(byte: u8, mask: u8) -> (r: Result<usize, IntegerDecoder>)
        ensures
            r matches Ok(v) ==> (byte & mask) < mask && v == (byte & mask),
            r matches Err(d) ==> (byte & mask) >= mask && d.wf() && d.value() == (byte & mask) && d.consumed() == 0,
    {
        let index = byte & mask;
        if index < mask {
            Ok(index as usize)
        } else {
            Err(IntegerDecoder { index: index as usize, shift: 1 })
        }
    }

    /// Takes the next continuation octet: returns the integer once an octet
    /// without the high bit arrives, `None` while more octets are needed,
    /// and a compression error when the value does not fit a `usize`.
    pub fn next_byte(&mut self, byte: u8) -> (r: Result<Option<usize>, H2Error>)
        requires
            old(self).wf(),
        ensures
            r is Err <==> old(self).value() + (byte % 128) as nat * pow2(7 * old(self).consumed()) > usize::MAX
                || 7 * old(self).consumed() >= usize::BITS,
            r matches Err(e) ==> e == H2Error::ConnectionError(ErrorCode::CompressionError),
            r is Ok ==> final(self).wf() && final(self).value() == old(self).value() + (byte % 128) as nat * pow2(7 * old(self).consumed())
                && final(self).consumed() == old(self).consumed() + 1,
            r matches Ok(o) ==> (o is Some <==> byte < 128),
            r matches Ok(Some(v)) ==> v == final(self).value(),
    {
        let k = self.shift - 1;
        assert(k == 7 * self.consumed()) by {
            assert((self.shift - 1) % 7 == 0);
        }
        if k >= usize::BITS {
            return Err(H2Error::ConnectionError(ErrorCode::CompressionError));
        }
        let ku = k as usize;
        proof {
            lemma_usize_pow2_no_overflow(ku as nat);
            lemma_usize_shl_is_mul(1usize, ku);
        }
        let p: usize = 1usize << ku;
        let d: usize = (byte & 0x7f) as usize;
        assert((byte & 0x7f) == byte % 128) by (bit_vector);
        let prod = d.checked_mul(p);
        match prod {
            None => {
                assert(self.index as nat + d * p > usize::MAX) by (nonlinear_arith)
                    requires d * p > usize::MAX;
                Err(H2Error::ConnectionError(ErrorCode::CompressionError))
            },
            Some(m) => {
                match m.checked_add(self.index) {
                    None => Err(H2Error::ConnectionError(ErrorCode::CompressionError)),
                    Some(v) => {
                        self.index = v;
                        self.shift = self.shift + 7;
                        assert(((self.shift - 1) / 7) as nat == ((old(self).shift - 1) / 7) as nat + 1);
                        if byte & 0x80 == 0 {
                            assert(byte & 0x80 == 0 ==> byte < 128) by (bit_vector);
                            Ok(Some(self.index))
                        } else {
                            assert(byte & 0x80 != 0 ==> byte >= 128) by (bit_vector);
                            Ok(None)
                        }
                    },
                }
            },
        }
    }
}

/// Stages of integer encoding.
enum IntegerEncodeState {
    First,
    Other,
    Finish,
}

/// Incremental encoder producing the octets of an integer one at a time.
pub struct IntegerEncoder {
    i: usize,
    mask: u8,
    pre: u8,
    state: IntegerEncodeState,
}

impl IntegerEncoder {
    /// The octets still to be produced.
    pub closed spec fn pending(&self) -> Seq<u8> {
        match self.state {
            IntegerEncodeState::First => int_encoding(self.i as nat, self.mask, self.pre),
            IntegerEncodeState::Other => cont_bytes(self.i as nat),
            IntegerEncodeState::Finish => Seq::empty(),
        }
    }

    /// Creates an encoder for `i` with prefix mask `mask`, setting the bits
    /// of `pre` in the first octet.
    pub fn new(i: usize, mask: u8, pre: u8) -> (r: IntegerEncoder)
        ensures
            r.pending() == int_encoding(i as nat, mask, pre),
    {
        IntegerEncoder { i, mask, pre, state: IntegerEncodeState::First }
    }

    /// Produces the next octet of the encoding, or `None` once all are out.
    pub fn next_byte(&mut self) -> (r: Option<u8>)
        ensures
            old(self).pending().len() == 0 ==> r is None && final(self).pending() == old(self).pending(),
            old(self).pending().len() > 0 ==> r == Some(old(self).pending()[0])
                && final(self).pending() == old(self).pending().drop_first(),
    {
        match self.state {
            IntegerEncodeState::First => {
                if self.i < self.mask as usize {
                    self.state = IntegerEncodeState::Finish;
                    return Some(self.pre | (self.i as u8));
                }
                self.i = self.i - self.mask as usize;
                self.state = IntegerEncodeState::Other;
                proof {
                    lemma_cont_bytes_nonempty(self.i as nat);
                    assert((seq![old(self).pre | old(self).mask] + cont_bytes(self.i as nat)).drop_first()
                        =~= cont_bytes(self.i as nat));
                }
                Some(self.pre | self.mask)
            },
            IntegerEncodeState::Other => {
                if self.i >= 128 {
                    let res = (self.i & 0x7f) as u8;
                    let ghost x = self.i;
                    self.i = self.i >> 7;
                    proof {
                        assert((x & 0x7f) == x % 128) by (bit_vector);
                        assert((x >> 7) == x / 128) by (bit_vector);
                        assert(res | 0x80 == (x % 128 + 128) as u8) by (bit_vector)
                            requires res == (x & 0x7f) as u8, (x & 0x7f) == x % 128;
                        assert((seq![(x % 128 + 128) as u8] + cont_bytes(x as nat / 128)).drop_first()
                            =~= cont_bytes(x as nat / 128));
                    }
                    Some(res | 0x80)
                } else {
                    self.state = IntegerEncodeState::Finish;
                    let ghost x = self.i;
                    assert((x & 0x7f) == x) by (bit_vector)
                        requires x < 128;
                    Some((self.i & 0x7f) as u8)
                }
            },
            IntegerEncodeState::Finish => None,
        }
    }

    /// Whether all octets have been produced.
    pub fn is_finish(&self) -> (r: bool)
        ensures
            r == (self.pending().len() == 0),
    {
        proof {
            lemma_cont_bytes_nonempty(self.i as nat);
        }
        match self.state {
            IntegerEncodeState::Finish => true,
            _ => false,
        }
    }
}

/// Every encoding has at least one octet.
pub proof fn lemma_cont_bytes_nonempty(x: nat)
    ensures
        cont_bytes(x).len() >= 1,
    decreases x,
{
    if x >= 128 {
        lemma_cont_bytes_nonempty(x / 128);
    }
}

proof fn lemma_cont_value_of_bytes(x: nat)
    ensures
        cont_value(cont_bytes(x)) == x,
    decreases x,
{
    if x >= 128 {
        lemma_cont_value_of_bytes(x / 128);
        let b = (x % 128 + 128) as u8;
        assert(b % 128 == x % 128);
        assert((seq![b] + cont_bytes(x / 128)).drop_first() =~= cont_bytes(x / 128));
        assert((seq![b] + cont_bytes(x / 128))[0] == b);
        assert(x == x % 128 + 128 * (x / 128));
    } else {
        assert(seq![x as u8].drop_first().len() == 0);
        assert(cont_value(seq![x as u8].drop_first()) == 0);
    }
}

proof fn lemma_cont_end_of_bytes(prefix: Seq<u8>, x: nat, rest: Seq<u8>)
    ensures
        cont_end(prefix + cont_bytes(x) + rest, prefix.len() as int)
            == Some(prefix.len() + cont_bytes(x).len() - 1),
    decreases x,
{
    let s = prefix + cont_bytes(x) + rest;
    let k = prefix.len() as int;
    if x >= 128 {
        let b = (x % 128 + 128) as u8;
        assert(s[k] == b);
        let p2 = prefix.push(b);
        assert(p2 + cont_bytes(x / 128) + rest =~= s);
        lemma_cont_end_of_bytes(p2, x / 128, rest);
    } else {
        assert(s[k] == x as u8);
    }
}

/// Decoding the encoding of an integer gives the integer back, and the
/// decoder stops exactly at the end of the encoding, whatever follows it.
pub proof fn lemma_int_roundtrip(i: nat, mask: u8, pre: u8, rest: Seq<u8>)
    requires
        is_prefix_mask(mask),
        pre & mask == 0,
    ensures
        int_decoding(int_encoding(i, mask, pre) + rest, mask)
            == Some((i, int_encoding(i, mask, pre).len())),
{
    let enc = int_encoding(i, mask, pre);
    let bs = enc + rest;
    if i < mask {
        let x = i as u8;
        assert(((pre | x) & mask) == x) by (bit_vector)
            requires
                pre & mask == 0,
                x < mask,
                mask == 1 || mask == 3 || mask == 7 || mask == 15 || mask == 31 || mask == 63 || mask == 127 || mask == 255;
        assert(bs[0] == pre | x);
    } else {
        let x = (i - mask) as nat;
        assert(((pre | mask) & mask) == mask) by (bit_vector);
        assert(bs[0] == pre | mask);
        lemma_cont_end_of_bytes(seq![pre | mask], x, rest);
        assert(seq![pre | mask] + cont_bytes(x) + rest =~= bs);
        lemma_cont_bytes_nonempty(x);
        let e = cont_bytes(x).len() as int;
        assert(bs.subrange(1, e + 1) =~= cont_bytes(x));
        lemma_cont_value_of_bytes(x);
    }
}

} // verus!
