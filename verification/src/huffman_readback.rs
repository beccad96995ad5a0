//! Strings coded by the Huffman code of HPACK, decoded back.
use vstd::prelude::*;
use vstd::arithmetic::power2::pow2;
use crate::huffman::{
    bit_at, bits_of, bits_value, code_bits, huff_run, huff_step, huffman_code, huffman_decoding, huffman_encoding,
    lookup, lookup_from, pack, pad_bits, sym_bits,
};

verus! {

/// How many symbols have codes of `len` bits.
pub open spec fn code_count(len: u8) -> nat {
    match len {
        5 => 10,
        6 => 26,
        7 => 32,
        8 => 6,
        10 => 5,
        11 => 3,
        12 => 2,
        13 => 6,
        14 => 2,
        15 => 3,
        19 => 3,
        20 => 8,
        21 => 13,
        22 => 26,
        23 => 29,
        24 => 12,
        25 => 4,
        26 => 15,
        27 => 19,
        28 => 29,
        30 => 4,
        _ => 0,
    }
}

/// The smallest code of `len` bits: the codes of each length follow
/// those of the length before, doubled (the code is canonical).
pub open spec fn first_code(len: u8) -> nat {
    match len {
        6 => 20,
        7 => 92,
        8 => 248,
        9 => 508,
        10 => 1016,
        11 => 2042,
        12 => 4090,
        13 => 8184,
        14 => 16380,
        15 => 32764,
        16 => 65534,
        17 => 131068,
        18 => 262136,
        19 => 524272,
        20 => 1048550,
        21 => 2097116,
        22 => 4194258,
        23 => 8388568,
        24 => 16777194,
        25 => 33554412,
        26 => 67108832,
        27 => 134217694,
        28 => 268435426,
        29 => 536870910,
        30 => 1073741820,
        _ => 0,
    }
}

/// The symbol whose code of `len` bits is `code`: the code table read
/// backwards.
pub open spec fn sym_of(code: u32, len: u8) -> u16 {
    match len {
        5 => match code {
            0x0 => 48,
            0x1 => 49,
            0x2 => 50,
            0x3 => 97,
            0x4 => 99,
            0x5 => 101,
            0x6 => 105,
            0x7 => 111,
            0x8 => 115,
            0x9 => 116,
            _ => 0,
        },
        6 => match code {
            0x14 => 32,
            0x15 => 37,
            0x16 => 45,
            0x17 => 46,
            0x18 => 47,
            0x19 => 51,
            0x1a => 52,
            0x1b => 53,
            0x1c => 54,
            0x1d => 55,
            0x1e => 56,
            0x1f => 57,
            0x20 => 61,
            0x21 => 65,
            0x22 => 95,
            0x23 => 98,
            0x24 => 100,
            0x25 => 102,
            0x26 => 103,
            0x27 => 104,
            0x28 => 108,
            0x29 => 109,
            0x2a => 110,
            0x2b => 112,
            0x2c => 114,
            0x2d => 117,
            _ => 0,
        },
        7 => match code {
            0x5c => 58,
            0x5d => 66,
            0x5e => 67,
            0x5f => 68,
            0x60 => 69,
            0x61 => 70,
            0x62 => 71,
            0x63 => 72,
            0x64 => 73,
            0x65 => 74,
            0x66 => 75,
            0x67 => 76,
            0x68 => 77,
            0x69 => 78,
            0x6a => 79,
            0x6b => 80,
            0x6c => 81,
            0x6d => 82,
            0x6e => 83,
            0x6f => 84,
            0x70 => 85,
            0x71 => 86,
            0x72 => 87,
            0x73 => 89,
            0x74 => 106,
            0x75 => 107,
            0x76 => 113,
            0x77 => 118,
            0x78 => 119,
            0x79 => 120,
            0x7a => 121,
            0x7b => 122,
            _ => 0,
        },
        8 => match code {
            0xf8 => 38,
            0xf9 => 42,
            0xfa => 44,
            0xfb => 59,
            0xfc => 88,
            0xfd => 90,
            _ => 0,
        },
        10 => match code {
            0x3f8 => 33,
            0x3f9 => 34,
            0x3fa => 40,
            0x3fb => 41,
            0x3fc => 63,
            _ => 0,
        },
        11 => match code {
            0x7fa => 39,
            0x7fb => 43,
            0x7fc => 124,
            _ => 0,
        },
        12 => match code {
            0xffa => 35,
            0xffb => 62,
            _ => 0,
        },
        13 => match code {
            0x1ff8 => 0,
            0x1ff9 => 36,
            0x1ffa => 64,
            0x1ffb => 91,
            0x1ffc => 93,
            0x1ffd => 126,
            _ => 0,
        },
        14 => match code {
            0x3ffc => 94,
            0x3ffd => 125,
            _ => 0,
        },
        15 => match code {
            0x7ffc => 60,
            0x7ffd => 96,
            0x7ffe => 123,
            _ => 0,
        },
        19 => match code {
            0x7fff0 => 92,
            0x7fff1 => 195,
            0x7fff2 => 208,
            _ => 0,
        },
        20 => match code {
            0xfffe6 => 128,
            0xfffe7 => 130,
            0xfffe8 => 131,
            0xfffe9 => 162,
            0xfffea => 184,
            0xfffeb => 194,
            0xfffec => 224,
            0xfffed => 226,
            _ => 0,
        },
        21 => match code {
            0x1fffdc => 153,
            0x1fffdd => 161,
            0x1fffde => 167,
            0x1fffdf => 172,
            0x1fffe0 => 176,
            0x1fffe1 => 177,
            0x1fffe2 => 179,
            0x1fffe3 => 209,
            0x1fffe4 => 216,
            0x1fffe5 => 217,
            0x1fffe6 => 227,
            0x1fffe7 => 229,
            0x1fffe8 => 230,
            _ => 0,
        },
        22 => match code {
            0x3fffd2 => 129,
            0x3fffd3 => 132,
            0x3fffd4 => 133,
            0x3fffd5 => 134,
            0x3fffd6 => 136,
            0x3fffd7 => 146,
            0x3fffd8 => 154,
            0x3fffd9 => 156,
            0x3fffda => 160,
            0x3fffdb => 163,
            0x3fffdc => 164,
            0x3fffdd => 169,
            0x3fffde => 170,
            0x3fffdf => 173,
            0x3fffe0 => 178,
            0x3fffe1 => 181,
            0x3fffe2 => 185,
            0x3fffe3 => 186,
            0x3fffe4 => 187,
            0x3fffe5 => 189,
            0x3fffe6 => 190,
            0x3fffe7 => 196,
            0x3fffe8 => 198,
            0x3fffe9 => 228,
            0x3fffea => 232,
            0x3fffeb => 233,
            _ => 0,
        },
        23 => match code {
            0x7fffd8 => 1,
            0x7fffd9 => 135,
            0x7fffda => 137,
            0x7fffdb => 138,
            0x7fffdc => 139,
            0x7fffdd => 140,
            0x7fffde => 141,
            0x7fffdf => 143,
            0x7fffe0 => 147,
            0x7fffe1 => 149,
            0x7fffe2 => 150,
            0x7fffe3 => 151,
            0x7fffe4 => 152,
            0x7fffe5 => 155,
            0x7fffe6 => 157,
            0x7fffe7 => 158,
            0x7fffe8 => 165,
            0x7fffe9 => 166,
            0x7fffea => 168,
            0x7fffeb => 174,
            0x7fffec => 175,
            0x7fffed => 180,
            0x7fffee => 182,
            0x7fffef => 183,
            0x7ffff0 => 188,
            0x7ffff1 => 191,
            0x7ffff2 => 197,
            0x7ffff3 => 231,
            0x7ffff4 => 239,
            _ => 0,
        },
        24 => match code {
            0xffffea => 9,
            0xffffeb => 142,
            0xffffec => 144,
            0xffffed => 145,
            0xffffee => 148,
            0xffffef => 159,
            0xfffff0 => 171,
            0xfffff1 => 206,
            0xfffff2 => 215,
            0xfffff3 => 225,
            0xfffff4 => 236,
            0xfffff5 => 237,
            _ => 0,
        },
        25 => match code {
            0x1ffffec => 199,
            0x1ffffed => 207,
            0x1ffffee => 234,
            0x1ffffef => 235,
            _ => 0,
        },
        26 => match code {
            0x3ffffe0 => 192,
            0x3ffffe1 => 193,
            0x3ffffe2 => 200,
            0x3ffffe3 => 201,
            0x3ffffe4 => 202,
            0x3ffffe5 => 205,
            0x3ffffe6 => 210,
            0x3ffffe7 => 213,
            0x3ffffe8 => 218,
            0x3ffffe9 => 219,
            0x3ffffea => 238,
            0x3ffffeb => 240,
            0x3ffffec => 242,
            0x3ffffed => 243,
            0x3ffffee => 255,
            _ => 0,
        },
        27 => match code {
            0x7ffffde => 203,
            0x7ffffdf => 204,
            0x7ffffe0 => 211,
            0x7ffffe1 => 212,
            0x7ffffe2 => 214,
            0x7ffffe3 => 221,
            0x7ffffe4 => 222,
            0x7ffffe5 => 223,
            0x7ffffe6 => 241,
            0x7ffffe7 => 244,
            0x7ffffe8 => 245,
            0x7ffffe9 => 246,
            0x7ffffea => 247,
            0x7ffffeb => 248,
            0x7ffffec => 250,
            0x7ffffed => 251,
            0x7ffffee => 252,
            0x7ffffef => 253,
            0x7fffff0 => 254,
            _ => 0,
        },
        28 => match code {
            0xfffffe2 => 2,
            0xfffffe3 => 3,
            0xfffffe4 => 4,
            0xfffffe5 => 5,
            0xfffffe6 => 6,
            0xfffffe7 => 7,
            0xfffffe8 => 8,
            0xfffffe9 => 11,
            0xfffffea => 12,
            0xfffffeb => 14,
            0xfffffec => 15,
            0xfffffed => 16,
            0xfffffee => 17,
            0xfffffef => 18,
            0xffffff0 => 19,
            0xffffff1 => 20,
            0xffffff2 => 21,
            0xffffff3 => 23,
            0xffffff4 => 24,
            0xffffff5 => 25,
            0xffffff6 => 26,
            0xffffff7 => 27,
            0xffffff8 => 28,
            0xffffff9 => 29,
            0xffffffa => 30,
            0xffffffb => 31,
            0xffffffc => 127,
            0xffffffd => 220,
            0xffffffe => 249,
            _ => 0,
        },
        30 => match code {
            0x3ffffffc => 10,
            0x3ffffffd => 13,
            0x3ffffffe => 22,
            0x3fffffff => 256,
            _ => 0,
        },
        _ => 0,
    }
}

proof fn lemma_first_step(l: u8)
    requires
        1 <= l <= 29,
    ensures
        first_code((l + 1) as u8) == 2 * (first_code(l) + code_count(l)),
{
}

#[verifier::rlimit(50)]
proof fn lemma_symbol(c: u16)
    requires
        c <= 256,
    ensures
        5 <= huffman_code(c).1 <= 30,
        first_code(huffman_code(c).1) <= huffman_code(c).0,
        huffman_code(c).0 < first_code(huffman_code(c).1) + code_count(huffman_code(c).1),
        sym_of(huffman_code(c).0, huffman_code(c).1) == c,
{
}

proof fn lemma_table_fits(len: u8)
    requires
        5 <= len <= 30,
    ensures
        first_code(len) + code_count(len) <= pow2(len as nat),
{
    vstd::arithmetic::power2::lemma2_to64();
}

/// No symbol has a code of `k` bits at or above the codes of that length.
proof fn lemma_lookup_none(v: u32, k: u8, s: int)
    requires
        0 <= s <= 257,
        v >= first_code(k) + code_count(k),
    ensures
        lookup_from(v, k, s) is None,
    decreases 257 - s,
{
    if s <= 256 {
        lemma_symbol(s as u16);
        lemma_lookup_none(v, k, s + 1);
    }
}

/// The code of a symbol is found as that symbol: no other symbol has it.
proof fn lemma_lookup_some(c: u16, s: int)
    requires
        c <= 256,
        0 <= s <= c,
    ensures
        lookup_from(huffman_code(c).0, huffman_code(c).1, s) == Some(c),
    decreases c - s,
{
    lemma_symbol(c);
    if s < c {
        lemma_symbol(s as u16);
        lemma_lookup_some(c, s + 1);
    }
}

/// The first `k` bits of a code of more bits lie above the codes of `k`
/// bits.
proof fn lemma_prefix_bound(c: u16, k: u8)
    requires
        c <= 256,
        1 <= k < huffman_code(c).1,
    ensures
        huffman_code(c).0 as nat / pow2((huffman_code(c).1 - k) as nat) >= first_code(k) + code_count(k),
    decreases huffman_code(c).1 - k,
{
    let (code, len) = huffman_code(c);
    lemma_symbol(c);
    lemma_first_step(k);
    vstd::arithmetic::power2::lemma_pow2_unfold((len - k) as nat);
    if k + 1 == len {
        vstd::arithmetic::power2::lemma2_to64();
        assert((len - k) as nat == 1);
        assert(pow2((len - k) as nat) == 2);
        assert(code as nat >= first_code(len));
        assert(first_code(len) == 2 * (first_code(k) + code_count(k)));
        let y = first_code(k) + code_count(k);
        vstd::arithmetic::div_mod::lemma_div_multiples_vanish(y as int, 2);
        vstd::arithmetic::div_mod::lemma_div_is_ordered((2 * y) as int, code as int, 2);
    } else {
        lemma_prefix_bound(c, (k + 1) as u8);
        let m = (len - k - 1) as nat;
        assert(m == (len - (k + 1) as u8) as nat);
        vstd::arithmetic::power2::lemma_pow2_pos(m);
        vstd::arithmetic::power2::lemma_pow2_unfold(m + 1);
        assert(m + 1 == (len - k) as nat);
        vstd::arithmetic::div_mod::lemma_div_denominator(code as int, pow2(m) as int, 2);
        assert(pow2((len - k) as nat) == pow2(m) * 2);
        let x = code as nat / pow2(m);
        assert(x >= first_code((k + 1) as u8));
        vstd::arithmetic::div_mod::lemma_div_is_ordered(first_code((k + 1) as u8) as int, x as int, 2);
        assert(code as nat / pow2((len - k) as nat) == x / 2);
        let y = first_code(k) + code_count(k);
        vstd::arithmetic::div_mod::lemma_div_multiples_vanish(y as int, 2);
    }
}

/// The value of the first `k` bits of a code, one bit more than `k - 1`.
proof fn lemma_code_bit(code: u32, len: u8, k: int)
    requires
        1 <= k <= len <= 30,
    ensures
        code as nat / pow2((len - k) as nat) == (code as nat / pow2((len - (k - 1)) as nat)) * 2 + (if code_bits(
            (code, len),
        )[k - 1] { 1nat } else { 0nat }),
{
    let sh = (len - k) as u32;
    vstd::bits::lemma_u32_shr_is_div(code, sh);
    let x = code >> sh;
    assert(x & 1u32 == x % 2) by (bit_vector);
    let m = (len - k) as nat;
    vstd::arithmetic::power2::lemma_pow2_pos(m);
    vstd::arithmetic::power2::lemma_pow2_unfold(m + 1);
    assert((len - (k - 1)) as nat == m + 1);
    vstd::arithmetic::div_mod::lemma_div_denominator(code as int, pow2(m) as int, 2);
    vstd::arithmetic::div_mod::lemma_fundamental_div_mod(x as int, 2);
    assert(code_bits((code, len))[k - 1] == ((x & 1u32) == 1u32));
}

proof fn lemma_cast_u32(x: nat)
    requires
        x <= u32::MAX,
    ensures
        (x as u32) as nat == x,
{
}

/// The bits of a code read after a completed code: the value of the bits
/// read so far, and no symbol yet.
proof fn lemma_code_run(pre: Seq<bool>, out: Seq<u8>, c: u16, k: int)
    requires
        c < 256,
        huff_run(pre) == (out, 0u32, 0u8, false),
        0 <= k < huffman_code(c).1,
    ensures
        huff_run(pre + code_bits(huffman_code(c)).take(k)) == (
            out,
            (huffman_code(c).0 as nat / pow2((huffman_code(c).1 - k) as nat)) as u32,
            k as u8,
            false,
        ),
    decreases k,
{
    let (code, len) = huffman_code(c);
    lemma_symbol(c);
    lemma_table_fits(len);
    let cb = code_bits((code, len));
    if k == 0 {
        assert(pre + cb.take(0) =~= pre);
        vstd::arithmetic::div_mod::lemma_basic_div(code as int, pow2(len as nat) as int);
        assert(code as nat / pow2((len - k) as nat) == 0);
    } else {
        lemma_code_run(pre, out, c, k - 1);
        let bits = pre + cb.take(k);
        assert(bits.drop_last() =~= pre + cb.take(k - 1));
        assert(bits.last() == cb[k - 1]);
        lemma_code_bit(code, len, k);
        let v = code as nat / pow2((len - k) as nat);
        let v0 = code as nat / pow2((len - (k - 1)) as nat);
        vstd::arithmetic::power2::lemma_pow2_pos((len - k) as nat);
        vstd::arithmetic::div_mod::lemma_div_is_ordered_by_denominator(code as int, 1, pow2((len - k) as nat) as int);
        assert(v <= code);
        lemma_prefix_bound(c, k as u8);
        lemma_lookup_none(v as u32, k as u8, 0);
        assert(v0 <= code) by {
            vstd::arithmetic::power2::lemma_pow2_pos((len - (k - 1)) as nat);
            vstd::arithmetic::div_mod::lemma_div_is_ordered_by_denominator(code as int, 1, pow2((len - (k - 1)) as nat) as int);
        }
        let st = huff_run(bits.drop_last());
        assert(st == (out, v0 as u32, (k - 1) as u8, false));
        assert(v0 <= u32::MAX);
        lemma_cast_u32(v0);
        assert(st.1 == v0);
        assert(bits.last() == cb[k - 1]);
        assert(v == v0 * 2 + (if cb[k - 1] { 1nat } else { 0nat }));
        assert(st.1 * 2 + (if bits.last() { 1u32 } else { 0u32 }) == v);
        assert(v <= u32::MAX);
        let ncode = (st.1 * 2 + if bits.last() { 1u32 } else { 0u32 }) as u32;
        assert(ncode == v as u32);
        assert(((st.2 + 1) as u8) == k as u8);
        assert(lookup(ncode, k as u8) is None);
        assert(huff_run(bits) == huff_step(huff_run(bits.drop_last()), bits.last()));
    }
}

/// A whole code read after a completed code gives its symbol.
proof fn lemma_code_done(pre: Seq<bool>, out: Seq<u8>, c: u16)
    requires
        c < 256,
        huff_run(pre) == (out, 0u32, 0u8, false),
    ensures
        huff_run(pre + code_bits(huffman_code(c))) == (out.push(c as u8), 0u32, 0u8, false),
{
    let (code, len) = huffman_code(c);
    lemma_symbol(c);
    let cb = code_bits((code, len));
    let k = len as int;
    lemma_code_run(pre, out, c, k - 1);
    let bits = pre + cb;
    assert(cb.take(k) =~= cb);
    assert(bits.drop_last() =~= pre + cb.take(k - 1));
    assert(bits.last() == cb[k - 1]);
    lemma_code_bit(code, len, k);
    vstd::arithmetic::power2::lemma2_to64();
    assert(code as nat / pow2(0) == code);
    lemma_lookup_some(c, 0);
    assert(huff_run(bits) == huff_step(huff_run(bits.drop_last()), bits.last()));
}

/// The codes of a string, read from the start, give the string.
proof fn lemma_sym_run(s: Seq<u8>)
    ensures
        huff_run(sym_bits(s)) == (s, 0u32, 0u8, false),
    decreases s.len(),
{
    if s.len() == 0 {
        assert(sym_bits(s) =~= Seq::<bool>::empty());
        assert(s =~= Seq::<u8>::empty());
    } else {
        let q = s.drop_last();
        lemma_sym_run(q);
        lemma_code_done(sym_bits(q), q, s.last() as u16);
        assert(q.push(s.last()) =~= s);
    }
}

/// After a completed code, `p` padding ones (fewer than 8) complete no
/// code: they are the high bits of the end-of-string code.
proof fn lemma_pad_run(b: Seq<bool>, out: Seq<u8>, p: int)
    requires
        huff_run(b) == (out, 0u32, 0u8, false),
        0 <= p <= 7,
    ensures
        huff_run(b + Seq::new(p as nat, |i: int| true)) == (out, (pow2(p as nat) - 1) as u32, p as u8, false),
    decreases p,
{
    vstd::arithmetic::power2::lemma2_to64();
    let ones = Seq::new(p as nat, |i: int| true);
    if p == 0 {
        assert(b + ones =~= b);
    } else {
        lemma_pad_run(b, out, p - 1);
        let bits = b + ones;
        assert(bits.drop_last() =~= b + Seq::new((p - 1) as nat, |i: int| true));
        assert(bits.last());
        let v = (pow2(p as nat) - 1) as u32;
        assert(v >= first_code(p as u8) + code_count(p as u8));
        lemma_lookup_none(v, p as u8, 0);
        assert(huff_run(bits) == huff_step(huff_run(bits.drop_last()), bits.last()));
    }
}

/// The eight bits of an octet, most significant first.
proof fn lemma_octet_bits(x: u8, b0: bool, b1: bool, b2: bool, b3: bool, b4: bool, b5: bool, b6: bool, b7: bool)
    by (bit_vector)
    requires
        x == (if b0 { 128u8 } else { 0u8 }) + (if b1 { 64u8 } else { 0u8 }) + (if b2 { 32u8 } else { 0u8 }) + (if b3 {
            16u8
        } else { 0u8 }) + (if b4 { 8u8 } else { 0u8 }) + (if b5 { 4u8 } else { 0u8 }) + (if b6 { 2u8 } else { 0u8 }) + (
        if b7 { 1u8 } else { 0u8 }),
    ensures
        ((x >> 7u8) & 1u8 == 1u8) == b0,
        ((x >> 6u8) & 1u8 == 1u8) == b1,
        ((x >> 5u8) & 1u8 == 1u8) == b2,
        ((x >> 4u8) & 1u8 == 1u8) == b3,
        ((x >> 3u8) & 1u8 == 1u8) == b4,
        ((x >> 2u8) & 1u8 == 1u8) == b5,
        ((x >> 1u8) & 1u8 == 1u8) == b6,
        ((x >> 0u8) & 1u8 == 1u8) == b7,
{
}

/// Eight bits packed into an octet read back as the same bits.
proof fn lemma_chunk_bits(c: Seq<bool>)
    requires
        c.len() == 8,
    ensures
        forall|j: int| 0 <= j < 8 ==> #[trigger] bit_at(bits_value(c, 8) as u8, j) == c[j],
{
    reveal_with_fuel(bits_value, 9);
    let v = bits_value(c, 8);
    let x = v as u8;
    assert(v < 256);
    lemma_octet_bits(x, c[0], c[1], c[2], c[3], c[4], c[5], c[6], c[7]);
    assert forall|j: int| 0 <= j < 8 implies #[trigger] bit_at(x, j) == c[j] by {
        if j == 0 {
        } else if j == 1 {
        } else if j == 2 {
        } else if j == 3 {
        } else if j == 4 {
        } else if j == 5 {
        } else if j == 6 {
        } else {
        }
    }
}

/// Bits packed into octets read back as the same bits.
proof fn lemma_pack_bits(b: Seq<bool>)
    requires
        b.len() % 8 == 0,
    ensures
        bits_of(pack(b)) == b,
{
    let bs = pack(b);
    assert(bs.len() * 8 == b.len());
    assert forall|i: int| 0 <= i < b.len() implies #[trigger] bits_of(bs)[i] == b[i] by {
        let k = i / 8;
        let j = i % 8;
        let chunk = b.subrange(8 * k, 8 * k + 8);
        lemma_chunk_bits(chunk);
        assert(bs[k] == bits_value(chunk, 8) as u8);
        assert(bit_at(bs[k], j) == chunk[j]);
        assert(chunk[j] == b[8 * k + j]);
    }
    assert(bits_of(bs) =~= b);
}

/// Decoding a Huffman-coded string gives the string back: the codes of its
/// octets, padded with ones to an octet boundary, decode to its octets.
pub proof fn lemma_huffman_readback(s: Seq<u8>)
    ensures
        huffman_decoding(huffman_encoding(s)) == Some(s),
{
    let x = sym_bits(s);
    let p = ((8 - x.len() % 8) % 8) as int;
    let padded = pad_bits(x);
    assert(padded == x + Seq::new(p as nat, |i: int| true));
    assert(padded.len() % 8 == 0);
    lemma_pack_bits(padded);
    lemma_sym_run(s);
    lemma_pad_run(x, s, p);
    vstd::arithmetic::power2::lemma2_to64();
}

} // verus!
