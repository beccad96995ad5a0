//! Header field representations of HPACK (RFC 7541, section 6): parsing a
//! header block into indexed fields, literal fields and table size updates.
use vstd::prelude::*;
use vstd::arithmetic::power2::pow2;
use crate::h2::error::{ErrorCode, H2Error};
use crate::h2::hpack::integer::IntegerDecoder;
use crate::huffman::{decode as huffman_decode, huffman_decoding};

verus! {

/// Result of reading an integer: its value and the position after it, more
/// input needed, or a value too large for a `usize`.
pub enum IntRes {
    /// Value and position after the integer.
    Done(nat, int),
    /// The input ends inside the integer.
    Incomplete,
    /// The value does not fit a `usize`.
    Overflow,
}

/// Reads continuation octets from `pos`, `k` groups already read.
pub open spec fn int_cont(bs: Seq<u8>, pos: int, value: nat, k: nat) -> IntRes
    decreases bs.len() - pos,
{
    if pos < 0 || pos >= bs.len() {
        IntRes::Incomplete
    } else if 7 * k >= usize::BITS || value + (bs[pos] % 128) as nat * pow2(7 * k) > usize::MAX {
        IntRes::Overflow
    } else {
        let v = value + (bs[pos] % 128) as nat * pow2(7 * k);
        if bs[pos] < 128 {
            IntRes::Done(v, pos + 1)
        } else {
            int_cont(bs, pos + 1, v, k + 1)
        }
    }
}

/// Reads an integer with prefix mask `mask` at `pos`.
pub open spec fn int_at(bs: Seq<u8>, pos: int, mask: u8) -> IntRes {
    if pos < 0 || pos >= bs.len() {
        IntRes::Incomplete
    } else if (bs[pos] & mask) < mask {
        IntRes::Done((bs[pos] & mask) as nat, pos + 1)
    } else {
        int_cont(bs, pos + 1, (bs[pos] & mask) as nat, 0)
    }
}

/// Result of reading a string literal.
pub enum StrRes {
    /// The string and the position after it.
    Done(Seq<u8>, int),
    /// The input ends inside the literal.
    Incomplete,
    /// The literal is malformed.
    Error,
}

/// Reads a string literal at `pos`: a Huffman flag, a length with a 7-bit
/// prefix, then the octets, Huffman-decoded when the flag is set.
pub open spec fn str_at(bs: Seq<u8>, pos: int) -> StrRes {
    match int_at(bs, pos, 0x7f) {
        IntRes::Incomplete => StrRes::Incomplete,
        IntRes::Overflow => StrRes::Error,
        IntRes::Done(n, p) => if p + n > bs.len() {
            StrRes::Incomplete
        } else {
            let raw = bs.subrange(p, p + n);
            if bs[pos] >= 128 {
                match huffman_decoding(raw) {
                    Some(s) => StrRes::Done(s, p + n),
                    None => StrRes::Error,
                }
            } else {
                StrRes::Done(raw, p + n)
            }
        },
    }
}

/// The name of a literal field: a table index or a string.
pub enum NameV {
    /// Index into the tables.
    Index(nat),
    /// Literal name.
    Literal(Seq<u8>),
}

/// An abstract header field representation.
pub enum ReprV {
    /// Indexed field.
    Indexed(nat),
    /// Literal field added to the dynamic table.
    WithIndexing(NameV, Seq<u8>),
    /// Literal field not added to the dynamic table.
    WithoutIndexing(NameV, Seq<u8>),
    /// Literal field never to be indexed.
    NeverIndexed(NameV, Seq<u8>),
    /// Dynamic table size update.
    SizeUpdate(nat),
}

/// Result of reading a representation.
pub enum ReprRes {
    /// The representation and the position after it.
    Done(ReprV, int),
    /// The input ends inside the representation.
    Incomplete,
    /// The representation is malformed.
    Error,
}

/// Reads a literal field whose name index has prefix mask `mask`; `kind`
/// selects the representation built (0 with indexing, 1 without, 2 never).
pub open spec fn literal_at(bs: Seq<u8>, pos: int, mask: u8, kind: int) -> ReprRes {
    match int_at(bs, pos, mask) {
        IntRes::Incomplete => ReprRes::Incomplete,
        IntRes::Overflow => ReprRes::Error,
        IntRes::Done(idx, p) => {
            let name_res: Option<Option<(NameV, int)>> = if idx == 0 {
                match str_at(bs, p) {
                    StrRes::Done(n, q) => Some(Some((NameV::Literal(n), q))),
                    StrRes::Incomplete => Some(None),
                    StrRes::Error => None,
                }
            } else {
                Some(Some((NameV::Index(idx), p)))
            };
            match name_res {
                None => ReprRes::Error,
                Some(None) => ReprRes::Incomplete,
                Some(Some((name, q))) => match str_at(bs, q) {
                    StrRes::Done(v, e) => ReprRes::Done(
                        if kind == 0 {
                            ReprV::WithIndexing(name, v)
                        } else if kind == 1 {
                            ReprV::WithoutIndexing(name, v)
                        } else {
                            ReprV::NeverIndexed(name, v)
                        },
                        e,
                    ),
                    StrRes::Incomplete => ReprRes::Incomplete,
                    StrRes::Error => ReprRes::Error,
                },
            }
        },
    }
}

/// Reads the representation at `pos`, selected by the high bits of its
/// first octet.
pub open spec fn repr_at(bs: Seq<u8>, pos: int) -> ReprRes {
    if pos < 0 || pos >= bs.len() {
        ReprRes::Incomplete
    } else if bs[pos] >= 128 {
        match int_at(bs, pos, 0x7f) {
            IntRes::Done(i, p) => ReprRes::Done(ReprV::Indexed(i), p),
            IntRes::Incomplete => ReprRes::Incomplete,
            IntRes::Overflow => ReprRes::Error,
        }
    } else if bs[pos] >= 64 {
        literal_at(bs, pos, 0x3f, 0)
    } else if bs[pos] >= 32 {
        match int_at(bs, pos, 0x1f) {
            IntRes::Done(m, p) => ReprRes::Done(ReprV::SizeUpdate(m), p),
            IntRes::Incomplete => ReprRes::Incomplete,
            IntRes::Overflow => ReprRes::Error,
        }
    } else if bs[pos] >= 16 {
        literal_at(bs, pos, 0x0f, 2)
    } else {
        literal_at(bs, pos, 0x0f, 1)
    }
}

/// The name of a literal field.
pub enum Name {
    /// Index into the tables.
    Index(usize),
    /// Literal name octets.
    Literal(Vec<u8>),
}

impl View for Name {
    type V = NameV;

    open spec fn view(&self) -> NameV {
        match self {
            Name::Index(i) => NameV::Index(*i as nat),
            Name::Literal(v) => NameV::Literal(v@),
        }
    }
}

/// A decoded header field representation.
pub enum Representation {
    /// Indexed field.
    Indexed { index: usize },
    /// Literal field added to the dynamic table.
    LiteralWithIndexing { name: Name, value: Vec<u8> },
    /// Literal field not added to the dynamic table.
    LiteralWithoutIndexing { name: Name, value: Vec<u8> },
    /// Literal field never to be indexed.
    LiteralNeverIndexed { name: Name, value: Vec<u8> },
    /// Dynamic table size update.
    SizeUpdate { max_size: usize },
}

impl View for Representation {
    type V = ReprV;

    open spec fn view(&self) -> ReprV {
        match self {
            Representation::Indexed { index } => ReprV::Indexed(*index as nat),
            Representation::LiteralWithIndexing { name, value } => ReprV::WithIndexing(name@, value@),
            Representation::LiteralWithoutIndexing { name, value } => ReprV::WithoutIndexing(name@, value@),
            Representation::LiteralNeverIndexed { name, value } => ReprV::NeverIndexed(name@, value@),
            Representation::SizeUpdate { max_size } => ReprV::SizeUpdate(*max_size as nat),
        }
    }
}

/// Outcome of parsing at a position.
pub enum Parsed<T> {
    /// A value and the position after it.
    Done(T, usize),
    /// More input is needed.
    Incomplete,
    /// The input is malformed.
    Error,
}

/// Reads an integer with prefix mask `mask` at `pos`.
pub fn parse_int(bs: &[u8], pos: usize, mask: u8) -> (r: Parsed<usize>)
    ensures
        match int_at(bs@, pos as int, mask) {
            IntRes::Done(v, p) => r matches Parsed::Done(x, q) && x == v && q == p,
            IntRes::Incomplete => r is Incomplete,
            IntRes::Overflow => r is Error,
        },
{
    if pos >= bs.len() {
        return Parsed::Incomplete;
    }
    match IntegerDecoder::first_byte(bs[pos], mask) {
        Ok(v) => Parsed::Done(v, pos + 1),
        Err(mut dec) => {
            let mut p = pos + 1;
            while p < bs.len()
                invariant
                    pos < p <= bs@.len(),
                    dec.wf(),
                    int_at(bs@, pos as int, mask) == int_cont(bs@, p as int, dec.value(), dec.consumed()),
                decreases bs@.len() - p,
            {
                match dec.next_byte(bs[p]) {
                    Err(_) => return Parsed::Error,
                    Ok(Some(v)) => return Parsed::Done(v, p + 1),
                    Ok(None) => {},
                }
                p = p + 1;
            }
            Parsed::Incomplete
        },
    }
}

fn compression_error() -> (r: H2Error)
    ensures
        r == H2Error::ConnectionError(ErrorCode::CompressionError),
{
    H2Error::ConnectionError(ErrorCode::CompressionError)
}

/// Reads a string literal at `pos`.
pub fn parse_string(bs: &[u8], pos: usize) -> (r: Parsed<Vec<u8>>)
    ensures
        match str_at(bs@, pos as int) {
            StrRes::Done(s, p) => r matches Parsed::Done(x, q) && x@ == s && q == p,
            StrRes::Incomplete => r is Incomplete,
            StrRes::Error => r is Error,
        },
{
    proof {
        lemma_int_advances(bs@, pos as int, 0x7f);
    }
    match parse_int(bs, pos, 0x7f) {
        Parsed::Incomplete => Parsed::Incomplete,
        Parsed::Error => Parsed::Error,
        Parsed::Done(n, p) => {
            if n > bs.len() - p {
                return Parsed::Incomplete;
            }
            let raw = &bs[p..p + n];
            if bs[pos] >= 128 {
                match huffman_decode(raw) {
                    Some(s) => Parsed::Done(s, p + n),
                    None => Parsed::Error,
                }
            } else {
                Parsed::Done(crate::bytes::copy_bytes(raw), p + n)
            }
        },
    }
}

fn make_literal(name: Name, value: Vec<u8>, kind: u8) -> (r: Representation)
    ensures
        r@ == (if kind == 0 {
            ReprV::WithIndexing(name@, value@)
        } else if kind == 1 {
            ReprV::WithoutIndexing(name@, value@)
        } else {
            ReprV::NeverIndexed(name@, value@)
        }),
{
    if kind == 0 {
        Representation::LiteralWithIndexing { name, value }
    } else if kind == 1 {
        Representation::LiteralWithoutIndexing { name, value }
    } else {
        Representation::LiteralNeverIndexed { name, value }
    }
}

fn parse_literal(bs: &[u8], pos: usize, mask: u8, kind: u8) -> (r: Parsed<Representation>)
    ensures
        match literal_at(bs@, pos as int, mask, kind as int) {
            ReprRes::Done(v, p) => r matches Parsed::Done(x, q) && x@ == v && q == p,
            ReprRes::Incomplete => r is Incomplete,
            ReprRes::Error => r is Error,
        },
{
    match parse_int(bs, pos, mask) {
        Parsed::Incomplete => Parsed::Incomplete,
        Parsed::Error => Parsed::Error,
        Parsed::Done(idx, p) => {
            let (name, q) = if idx == 0 {
                match parse_string(bs, p) {
                    Parsed::Done(n, q) => (Name::Literal(n), q),
                    Parsed::Incomplete => return Parsed::Incomplete,
                    Parsed::Error => return Parsed::Error,
                }
            } else {
                (Name::Index(idx), p)
            };
            match parse_string(bs, q) {
                Parsed::Done(v, e) => Parsed::Done(make_literal(name, v, kind), e),
                Parsed::Incomplete => Parsed::Incomplete,
                Parsed::Error => Parsed::Error,
            }
        },
    }
}

/// Reads the representation at `pos`.
pub fn parse_repr(bs: &[u8], pos: usize) -> (r: Parsed<Representation>)
    ensures
        match repr_at(bs@, pos as int) {
            ReprRes::Done(v, p) => r matches Parsed::Done(x, q) && x@ == v && q == p,
            ReprRes::Incomplete => r is Incomplete,
            ReprRes::Error => r is Error,
        },
{
    if pos >= bs.len() {
        return Parsed::Incomplete;
    }
    let b = bs[pos];
    if b >= 128 {
        match parse_int(bs, pos, 0x7f) {
            Parsed::Done(i, p) => Parsed::Done(Representation::Indexed { index: i }, p),
            Parsed::Incomplete => Parsed::Incomplete,
            Parsed::Error => Parsed::Error,
        }
    } else if b >= 64 {
        parse_literal(bs, pos, 0x3f, 0)
    } else if b >= 32 {
        match parse_int(bs, pos, 0x1f) {
            Parsed::Done(m, p) => Parsed::Done(Representation::SizeUpdate { max_size: m }, p),
            Parsed::Incomplete => Parsed::Incomplete,
            Parsed::Error => Parsed::Error,
        }
    } else if b >= 16 {
        parse_literal(bs, pos, 0x0f, 2)
    } else {
        parse_literal(bs, pos, 0x0f, 1)
    }
}

/// Reading an integer that completes moves past the position read.
pub proof fn lemma_int_advances(bs: Seq<u8>, pos: int, mask: u8)
    ensures
        int_at(bs, pos, mask) matches IntRes::Done(_, p) ==> pos < p <= bs.len(),
{
    if 0 <= pos < bs.len() && (bs[pos] & mask) >= mask {
        lemma_cont_advances(bs, pos + 1, (bs[pos] & mask) as nat, 0);
    }
}

proof fn lemma_cont_advances(bs: Seq<u8>, pos: int, value: nat, k: nat)
    ensures
        int_cont(bs, pos, value, k) matches IntRes::Done(_, p) ==> pos < p <= bs.len(),
    decreases bs.len() - pos,
{
    if 0 <= pos < bs.len() && !(7 * k >= usize::BITS || value + (bs[pos] % 128) as nat * pow2(7 * k) > usize::MAX) {
        let v = value + (bs[pos] % 128) as nat * pow2(7 * k);
        if bs[pos] >= 128 {
            lemma_cont_advances(bs, pos + 1, v, k + 1);
        }
    }
}

/// Reading a representation that completes moves past the position read.
pub proof fn lemma_repr_advances(bs: Seq<u8>, pos: int)
    ensures
        repr_at(bs, pos) matches ReprRes::Done(_, p) ==> pos < p <= bs.len(),
{
    lemma_int_advances(bs, pos, 0x7f);
    lemma_int_advances(bs, pos, 0x3f);
    lemma_int_advances(bs, pos, 0x1f);
    lemma_int_advances(bs, pos, 0x0f);
    if 0 <= pos < bs.len() {
        lemma_literal_advances(bs, pos, 0x3f, 0);
        lemma_literal_advances(bs, pos, 0x0f, 1);
        lemma_literal_advances(bs, pos, 0x0f, 2);
    }
}

proof fn lemma_literal_advances(bs: Seq<u8>, pos: int, mask: u8, kind: int)
    ensures
        literal_at(bs, pos, mask, kind) matches ReprRes::Done(_, p) ==> pos < p <= bs.len(),
{
    lemma_int_advances(bs, pos, mask);
    if let IntRes::Done(idx, p) = int_at(bs, pos, mask) {
        lemma_str_advances(bs, p);
        if let StrRes::Done(_, q) = str_at(bs, p) {
            lemma_str_advances(bs, q);
        }
    }
}

proof fn lemma_str_advances(bs: Seq<u8>, pos: int)
    ensures
        str_at(bs, pos) matches StrRes::Done(_, p) ==> pos < p <= bs.len(),
{
    lemma_int_advances(bs, pos, 0x7f);
}

} // verus!
