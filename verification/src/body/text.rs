//! Plain bodies: octets sent as they are, and read up to a known length.
use vstd::prelude::*;
use core::convert::Infallible;
use crate::body::sync_impl::Body;

verus! {

/// A body whose octets are sent as they are.
pub struct TextBody<'a> {
    from: &'a [u8],
    offset: usize,
}

impl<'a> TextBody<'a> {
    /// The octets not yet read.
    pub closed spec fn rest(&self) -> Seq<u8> {
        self.from@.subrange(self.offset as int, self.from@.len() as int)
    }

    #[verifier::type_invariant]
    spec fn wf(&self) -> bool {
        self.offset <= self.from@.len()
    }

    /// Creates a body from octets.
    pub fn from_bytes(bytes: &'a [u8]) -> (r: TextBody<'a>)
        ensures
            r.rest() == bytes@,
    {
        let r = TextBody { from: bytes, offset: 0 };
        assert(r.rest() =~= bytes@);
        r
    }
}

impl<'a> Body for TextBody<'a> {
    type Error = Infallible;

    /// Copies the next octets, as many as fit.
    fn data(&mut self, buf: &mut [u8]) -> (r: Result<usize, Infallible>)
        ensures
            ({
                let rest = old(self).rest();
                let n: nat = if old(buf)@.len() < rest.len() { old(buf)@.len() } else { rest.len() };
                &&& r == Ok::<usize, Infallible>(n as usize)
                &&& final(buf)@ == rest.subrange(0, n as int) + old(buf)@.subrange(n as int, old(buf)@.len() as int)
                &&& final(self).rest() == rest.subrange(n as int, rest.len() as int)
            }),
    {
        proof {
            use_type_invariant(&*self);
        }
        let left = self.from.len() - self.offset;
        let n = if buf.len() < left { buf.len() } else { left };
        let mut i: usize = 0;
        while i < n
            invariant
                i <= n,
                n <= buf@.len(),
                self.offset + n <= self.from@.len(),
                self.from@.len() <= usize::MAX,
                self.offset == old(self).offset,
                self.from == old(self).from,
                buf@.len() == old(buf)@.len(),
                forall|j: int| 0 <= j < i ==> buf@[j] == self.from@[self.offset + j],
                forall|j: int| n <= j < buf@.len() ==> buf@[j] == old(buf)@[j],
            decreases n - i,
        {
            buf[i] = self.from[self.offset + i];
            i = i + 1;
        }
        let ghost rest = old(self).rest();
        assert(buf@ =~= rest.subrange(0, n as int) + old(buf)@.subrange(n as int, old(buf)@.len() as int));
        self.offset = self.offset + n;
        assert(self.rest() =~= rest.subrange(n as int, rest.len() as int));
        Ok(n)
    }
}

/// How many octets of `buf` belong to a body of which `expected` octets
/// are still expected.
pub open spec fn taken(expected: nat, buf: Seq<u8>) -> nat {
    if expected < buf.len() { expected } else { buf.len() }
}

/// Decoding a body in two pieces gives the same octets, leaves the same
/// octets after the body and expects the same number afterwards as decoding
/// the two pieces joined.
pub proof fn lemma_text_split(e: nat, a: Seq<u8>, b: Seq<u8>)
    ensures
        ({
            let n1 = taken(e, a);
            let n2 = taken((e - n1) as nat, b);
            let n = taken(e, a + b);
            &&& a.subrange(0, n1 as int) + b.subrange(0, n2 as int) == (a + b).subrange(0, n as int)
            &&& e - n1 - n2 == e - n
            &&& n1 == a.len() ==> b.subrange(n2 as int, b.len() as int) == (a + b).subrange(n as int, (a + b).len() as int)
        }),
{
    let n1 = taken(e, a);
    let n2 = taken((e - n1) as nat, b);
    let n = taken(e, a + b);
    assert(a.subrange(0, n1 as int) + b.subrange(0, n2 as int) =~= (a + b).subrange(0, n as int));
    if n1 == a.len() {
        assert(b.subrange(n2 as int, b.len() as int) =~= (a + b).subrange(n as int, (a + b).len() as int));
    }
}

/// Decoder of a body of known length.
pub struct TextBodyDecoder {
    left: u64,
}

#[derive(Debug)]
enum TextState {
    Partial,
    Complete,
}

/// A piece of a body of known length.
#[derive(Debug)]
pub struct Text<'a> {
    state: TextState,
    data: &'a [u8],
}

impl<'a> Text<'a> {
    /// Whether the body is complete with this piece.
    pub closed spec fn complete_spec(&self) -> bool {
        self.state is Complete
    }

    /// The octets of this piece.
    pub closed spec fn bytes(&self) -> Seq<u8> {
        self.data@
    }

    /// Whether the body is complete with this piece.
    pub fn is_complete(&self) -> (r: bool)
        ensures
            r == self.complete_spec(),
    {
        match self.state {
            TextState::Complete => true,
            TextState::Partial => false,
        }
    }

    /// Whether more of the body follows.
    pub fn is_partial(&self) -> (r: bool)
        ensures
            r == !self.complete_spec(),
    {
        !self.is_complete()
    }

    /// The octets of this piece.
    pub fn data(&self) -> (r: &[u8])
        ensures
            r@ == self.bytes(),
    {
        self.data
    }

    fn complete(data: &'a [u8]) -> (r: Text<'a>)
        ensures
            r.complete_spec(),
            r.bytes() == data@,
    {
        Text { state: TextState::Complete, data }
    }

    fn partial(data: &'a [u8]) -> (r: Text<'a>)
        ensures
            !r.complete_spec(),
            r.bytes() == data@,
    {
        Text { state: TextState::Partial, data }
    }
}

impl TextBodyDecoder {
    /// Octets of the body still expected.
    pub closed spec fn expected(&self) -> nat {
        self.left as nat
    }

    /// Creates a decoder of a body of `length` octets.
    pub fn new(length: u64) -> (r: TextBodyDecoder)
        ensures
            r.expected() == length,
    {
        TextBodyDecoder { left: length }
    }

    /// Takes the octets of the body from the start of `buf`: the piece, and
    /// what follows the body in `buf`.
    pub fn decode<'a>(&mut self, buf: &'a [u8]) -> (r: (Text<'a>, &'a [u8]))
        ensures
            ({
                let n = taken(old(self).expected(), buf@);
                &&& r.0.bytes() == buf@.subrange(0, n as int)
                &&& r.1@ == buf@.subrange(n as int, buf@.len() as int)
                &&& final(self).expected() == old(self).expected() - n
                &&& r.0.complete_spec() == (final(self).expected() == 0)
            }),
    {
        if self.left == 0 {
            return (Text::complete(&buf[0..0]), buf);
        }
        let size: u64 = if self.left < buf.len() as u64 { self.left } else { buf.len() as u64 };
        self.left = self.left - size;
        let end = size as usize;
        if self.left == 0 {
            (Text::complete(&buf[0..end]), &buf[end..buf.len()])
        } else {
            (Text::partial(&buf[0..end]), &buf[end..buf.len()])
        }
    }
}

} // verus!
