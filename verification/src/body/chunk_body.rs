//! Chunked transfer coding of HTTP/1.1 (RFC 9112, section 7.1), sending
//! side: a body cut into chunks of 1024 octets, written into buffers of any
//! size.
use vstd::prelude::*;
use core::convert::Infallible;
use crate::body::sync_impl::Body;
use crate::bytes::{push_bytes, write_piece};
use crate::headers::{lines_text, Headers};

verus! {

/// The size of a full chunk.
pub const CHUNK_SIZE: usize = 1024;

/// The lower-case hexadecimal digit of `d` (below 16).
pub open spec fn hex_digit(d: nat) -> u8 {
    if d < 10 { (0x30 + d) as u8 } else { (0x57 + d) as u8 }
}

/// `n` in lower-case hexadecimal, without leading zeros.
pub open spec fn hex_bytes(n: nat) -> Seq<u8>
    decreases n,
{
    if n < 16 {
        seq![hex_digit(n)]
    } else {
        hex_bytes(n / 16).push(hex_digit(n % 16))
    }
}

/// A line end.
pub open spec fn crlf() -> Seq<u8> {
    seq![0x0du8, 0x0au8]
}

/// The chunks that carry `b`: one of 1024 octets while more than that are
/// left, then one with the rest; none for an empty body.
pub open spec fn chunks_wire(b: Seq<u8>) -> Seq<u8>
    decreases b.len(),
{
    if b.len() == 0 {
        Seq::empty()
    } else if b.len() <= 1024 {
        hex_bytes(b.len()) + crlf() + b + crlf()
    } else {
        hex_bytes(1024) + crlf() + b.subrange(0, 1024) + crlf() + chunks_wire(b.subrange(1024, b.len() as int))
    }
}

/// The end of a chunked body: the last chunk, the trailer lines `t` and an
/// empty line.
pub open spec fn closing(t: Seq<u8>) -> Seq<u8> {
    seq![0x30u8, 0x0du8, 0x0au8] + t + crlf()
}

/// The whole chunked coding of `b` with trailer lines `t`.
pub open spec fn chunk_stream(b: Seq<u8>, t: Seq<u8>) -> Seq<u8> {
    chunks_wire(b) + closing(t)
}

/// The piece of the coding being written.
#[derive(Debug, PartialEq, Eq, Structural, Clone, Copy)]
pub enum EncodeStage {
    /// The size of the current chunk.
    Size,
    /// The line end after the size.
    SizeEnd,
    /// The data of the current chunk.
    Data,
    /// The line end after the data.
    DataEnd,
    /// The last chunk, the trailer lines and the final line end.
    Trailer,
    /// Everything was written.
    Done,
}

/// The size of the chunk that starts at `off`.
pub open spec fn cur_len(b: Seq<u8>, off: int) -> int {
    if b.len() - off <= 1024 { b.len() - off } else { 1024 }
}

/// What follows the chunk that starts at `off`.
pub open spec fn after_wire(b: Seq<u8>, t: Seq<u8>, off: int) -> Seq<u8> {
    if b.len() - off <= 1024 {
        closing(t)
    } else {
        chunks_wire(b.subrange(off + 1024, b.len() as int)) + closing(t)
    }
}

/// The octets still to write, in `stage`, for the chunk at `off`, with
/// `idx` octets of the current piece written.
pub open spec fn pending(b: Seq<u8>, t: Seq<u8>, stage: EncodeStage, off: int, idx: int) -> Seq<u8> {
    let cl = cur_len(b, off);
    let d = b.subrange(off, off + cl);
    let next = after_wire(b, t, off);
    match stage {
        EncodeStage::Size => hex_bytes(cl as nat).skip(idx) + crlf() + d + crlf() + next,
        EncodeStage::SizeEnd => crlf().skip(idx) + d + crlf() + next,
        EncodeStage::Data => d.skip(idx) + crlf() + next,
        EncodeStage::DataEnd => crlf().skip(idx) + next,
        EncodeStage::Trailer => if idx <= closing(t).len() { closing(t).skip(idx) } else { Seq::empty() },
        EncodeStage::Done => Seq::empty(),
    }
}

/// A rank of the stages that falls when a piece that may be empty is
/// passed over.
pub open spec fn stage_rank(stage: EncodeStage) -> int {
    match stage {
        EncodeStage::Data => 2,
        EncodeStage::Done => 0,
        _ => 1,
    }
}

/// At the start of a chunk, what is left is the chunks of the rest of the
/// body and the end.
proof fn lemma_pending_start(b: Seq<u8>, t: Seq<u8>, off: int)
    requires
        0 <= off < b.len(),
    ensures
        pending(b, t, EncodeStage::Size, off, 0) == chunks_wire(b.subrange(off, b.len() as int)) + closing(t),
{
    let r = b.subrange(off, b.len() as int);
    let cl = cur_len(b, off);
    assert(hex_bytes(cl as nat).skip(0) =~= hex_bytes(cl as nat));
    if r.len() <= 1024 {
        assert(b.subrange(off, off + cl) =~= r);
    } else {
        assert(r.subrange(0, 1024) =~= b.subrange(off, off + 1024));
        assert(r.subrange(1024, r.len() as int) =~= b.subrange(off + 1024, b.len() as int));
    }
}

/// The hexadecimal digit of `d`.
fn hex_digit_of(d: usize) -> (r: u8)
    requires
        d < 16,
    ensures
        r == hex_digit(d as nat),
{
    if d < 10 { 0x30 + d as u8 } else { 0x57 + d as u8 }
}

/// `n` in lower-case hexadecimal, without leading zeros.
fn hex_of(n: usize) -> (r: Vec<u8>)
    ensures
        r@ == hex_bytes(n as nat),
    decreases n,
{
    if n < 16 {
        let mut v: Vec<u8> = Vec::new();
        v.push(hex_digit_of(n));
        assert(v@ =~= hex_bytes(n as nat));
        v
    } else {
        let mut v = hex_of(n / 16);
        v.push(hex_digit_of(n % 16));
        v
    }
}

/// The closing of a chunked body with the trailer lines `t`.
fn closing_of(t: &[u8]) -> (r: Vec<u8>)
    ensures
        r@ == closing(t@),
{
    let mut v: Vec<u8> = Vec::new();
    v.push(0x30);
    v.push(0x0d);
    v.push(0x0a);
    push_bytes(&mut v, t);
    v.push(0x0d);
    v.push(0x0a);
    assert(v@ =~= closing(t@));
    v
}

/// A body sent in chunked transfer coding, with optional trailer lines.
pub struct ChunkBody<'a> {
    from: &'a [u8],
    trailer_value: Vec<u8>,
    stage: EncodeStage,
    off: usize,
    idx: usize,
}

impl<'a> ChunkBody<'a> {
    #[verifier::type_invariant]
    spec fn wf(&self) -> bool {
        let cl = cur_len(self.from@, self.off as int);
        &&& self.off <= self.from@.len()
        &&& self.stage == EncodeStage::Size ==> self.idx < hex_bytes(cl as nat).len()
        &&& self.stage == EncodeStage::SizeEnd ==> self.idx < 2
        &&& self.stage == EncodeStage::Data ==> self.idx <= cl
        &&& self.stage == EncodeStage::DataEnd ==> self.idx < 2
    }

    /// The octets of the body.
    pub closed spec fn source(&self) -> Seq<u8> {
        self.from@
    }

    /// The trailer lines, as written.
    pub closed spec fn trailer_bytes(&self) -> Seq<u8> {
        self.trailer_value@
    }

    /// The octets still to write had the trailer lines been `t`.
    pub closed spec fn rest_with(&self, t: Seq<u8>) -> Seq<u8> {
        pending(self.from@, t, self.stage, self.off as int, self.idx as int)
    }

    /// The octets still to write.
    pub open spec fn rest(&self) -> Seq<u8> {
        self.rest_with(self.trailer_bytes())
    }

    /// A measure that falls with each piece written.
    spec fn measure(&self) -> int {
        4 * self.rest().len() + stage_rank(self.stage)
    }

    /// Creates the chunked coding of `bytes`, without trailer lines.
    pub fn from_bytes(bytes: &'a [u8]) -> (r: ChunkBody<'a>)
        ensures
            r.source() == bytes@,
            r.trailer_bytes() == Seq::<u8>::empty(),
            forall|t: Seq<u8>| #[trigger] r.rest_with(t) == chunk_stream(bytes@, t),
    {
        let stage = if bytes.len() == 0 { EncodeStage::Trailer } else { EncodeStage::Size };
        let r = ChunkBody { from: bytes, trailer_value: Vec::new(), stage, off: 0, idx: 0 };
        assert forall|t: Seq<u8>| #[trigger] r.rest_with(t) == chunk_stream(bytes@, t) by {
            if bytes@.len() == 0 {
                assert(chunks_wire(bytes@) =~= Seq::<u8>::empty());
                assert(closing(t).skip(0) =~= closing(t));
                assert(Seq::<u8>::empty() + closing(t) =~= closing(t));
            } else {
                lemma_pending_start(bytes@, t, 0);
                assert(bytes@.subrange(0, bytes@.len() as int) =~= bytes@);
            }
        }
        r
    }

    /// Sets the trailer lines sent after the last chunk: each field line as
    /// `name:value` and a line end.
    pub fn set_trailer(self, trailer_headers: Headers) -> (r: ChunkBody<'a>)
        ensures
            r.source() == self.source(),
            r.trailer_bytes() == lines_text(trailer_headers.lines()),
            forall|t: Seq<u8>| #[trigger] r.rest_with(t) == self.rest_with(t),
    {
        proof {
            use_type_invariant(&self);
        }
        let v = trailer_headers.to_lines();
        ChunkBody { from: self.from, trailer_value: v, stage: self.stage, off: self.off, idx: self.idx }
    }

    /// `buf` (from `b0`) received the next `n` octets of the coding at
    /// position `at`, and nothing else changed.
    spec fn advanced(&self, next: &ChunkBody<'a>, b0: Seq<u8>, b1: Seq<u8>, at: int, n: int) -> bool {
        &&& at + n <= b0.len()
        &&& b1.len() == b0.len()
        &&& b1.subrange(0, at) == b0.subrange(0, at)
        &&& b1.subrange(at + n, b0.len() as int) == b0.subrange(at + n, b0.len() as int)
        &&& self.rest() == b1.subrange(at, at + n) + next.rest()
        &&& next.source() == self.source()
        &&& next.trailer_bytes() == self.trailer_bytes()
        &&& next.measure() < self.measure()
    }

    /// The size of the current chunk.
    fn cur_chunk_len(&self) -> (cl: usize)
        ensures
            cl == cur_len(self.from@, self.off as int),
            self.off + cl <= self.from@.len(),
            self.from@.len() <= usize::MAX,
    {
        proof {
            use_type_invariant(self);
        }
        let left = self.from.len() - self.off;
        if left <= CHUNK_SIZE { left } else { CHUNK_SIZE }
    }

    /// Writes the size of the current chunk.
    fn size_encode(&mut self, buf: &mut [u8], at: usize) -> (n: usize)
        requires
            at < old(buf)@.len(),
            old(self).stage == EncodeStage::Size,
        ensures
            old(self).advanced(final(self), old(buf)@, final(buf)@, at as int, n as int),
    {
        proof {
            use_type_invariant(&*self);
        }
        let ghost old_rest = self.rest();
        let ghost i0 = self.idx as int;
        let cl = self.cur_chunk_len();
        let hex = hex_of(cl);
        let n = write_piece(hex.as_slice(), self.idx, buf, at);
        assert(hex@.skip(self.idx as int) =~= hex@.subrange(self.idx as int, self.idx + n) + hex@.skip(self.idx + n));
        if self.idx + n == hex.len() {
            self.idx = 0;
            self.stage = EncodeStage::SizeEnd;
            assert(crlf().skip(0) =~= crlf());
        } else {
            self.idx = self.idx + n;
        }
        assert(buf@.subrange(0, at as int) =~= old(buf)@.subrange(0, at as int));
        assert(buf@.subrange(at + n, buf@.len() as int) =~= old(buf)@.subrange(at + n, buf@.len() as int));
        proof {
            assert(buf@.subrange(at as int, at + n) =~= hex@.subrange(i0, i0 + n));
            assert(old_rest =~= buf@.subrange(at as int, at + n) + self.rest());
        }
        n
    }

    /// Writes the line end after the size.
    fn size_crlf_encode(&mut self, buf: &mut [u8], at: usize) -> (n: usize)
        requires
            at < old(buf)@.len(),
            old(self).stage == EncodeStage::SizeEnd,
        ensures
            old(self).advanced(final(self), old(buf)@, final(buf)@, at as int, n as int),
    {
        proof {
            use_type_invariant(&*self);
        }
        let ghost old_rest = self.rest();
        let ghost i0 = self.idx as int;
        let cl = self.cur_chunk_len();
        let crlf_v: [u8; 2] = [0x0d, 0x0a];
        assert(crlf_v@ =~= crlf());
        let n = write_piece(&crlf_v, self.idx, buf, at);
        assert(crlf().skip(self.idx as int) =~= crlf().subrange(self.idx as int, self.idx + n) + crlf().skip(self.idx + n));
        if self.idx + n == 2 {
            self.idx = 0;
            self.stage = EncodeStage::Data;
            let ghost d = self.from@.subrange(self.off as int, self.off + cl);
            assert(d.skip(0) =~= d);
        } else {
            self.idx = self.idx + n;
        }
        assert(buf@.subrange(0, at as int) =~= old(buf)@.subrange(0, at as int));
        assert(buf@.subrange(at + n, buf@.len() as int) =~= old(buf)@.subrange(at + n, buf@.len() as int));
        proof {
            assert(buf@.subrange(at as int, at + n) =~= crlf().subrange(i0, i0 + n));
            assert(old_rest =~= buf@.subrange(at as int, at + n) + self.rest());
        }
        n
    }

    /// Writes data of the current chunk.
    fn data_encode(&mut self, buf: &mut [u8], at: usize) -> (n: usize)
        requires
            at < old(buf)@.len(),
            old(self).stage == EncodeStage::Data,
        ensures
            old(self).advanced(final(self), old(buf)@, final(buf)@, at as int, n as int),
    {
        proof {
            use_type_invariant(&*self);
        }
        let ghost old_rest = self.rest();
        let ghost i0 = self.idx as int;
        let cl = self.cur_chunk_len();
        let from = self.from;
        let d = &from[self.off..self.off + cl];
        let n = write_piece(d, self.idx, buf, at);
        assert(d@.skip(self.idx as int) =~= d@.subrange(self.idx as int, self.idx + n) + d@.skip(self.idx + n));
        if self.idx + n == cl {
            self.idx = 0;
            self.stage = EncodeStage::DataEnd;
            assert(crlf().skip(0) =~= crlf());
        } else {
            self.idx = self.idx + n;
        }
        assert(buf@.subrange(0, at as int) =~= old(buf)@.subrange(0, at as int));
        assert(buf@.subrange(at + n, buf@.len() as int) =~= old(buf)@.subrange(at + n, buf@.len() as int));
        proof {
            assert(buf@.subrange(at as int, at + n) =~= d@.subrange(i0, i0 + n));
            assert(old_rest =~= buf@.subrange(at as int, at + n) + self.rest());
        }
        n
    }

    /// Writes the line end after the data, then moves to the next chunk or
    /// to the end.
    fn data_crlf_encode(&mut self, buf: &mut [u8], at: usize) -> (n: usize)
        requires
            at < old(buf)@.len(),
            old(self).stage == EncodeStage::DataEnd,
        ensures
            old(self).advanced(final(self), old(buf)@, final(buf)@, at as int, n as int),
    {
        proof {
            use_type_invariant(&*self);
        }
        let ghost old_rest = self.rest();
        let ghost i0 = self.idx as int;
        let ghost b = self.from@;
        let ghost t = self.trailer_value@;
        let cl = self.cur_chunk_len();
        let crlf_v: [u8; 2] = [0x0d, 0x0a];
        assert(crlf_v@ =~= crlf());
        let n = write_piece(&crlf_v, self.idx, buf, at);
        assert(crlf().skip(self.idx as int) =~= crlf().subrange(self.idx as int, self.idx + n) + crlf().skip(self.idx + n));
        if self.idx + n == 2 {
            self.idx = 0;
            if self.off + cl < self.from.len() {
                proof {
                    lemma_pending_start(b, t, self.off + 1024);
                }
                self.off = self.off + CHUNK_SIZE;
                self.stage = EncodeStage::Size;
            } else {
                self.stage = EncodeStage::Trailer;
                assert(closing(t).skip(0) =~= closing(t));
            }
        } else {
            self.idx = self.idx + n;
        }
        assert(buf@.subrange(0, at as int) =~= old(buf)@.subrange(0, at as int));
        assert(buf@.subrange(at + n, buf@.len() as int) =~= old(buf)@.subrange(at + n, buf@.len() as int));
        proof {
            assert(buf@.subrange(at as int, at + n) =~= crlf().subrange(i0, i0 + n));
            assert(old_rest =~= buf@.subrange(at as int, at + n) + self.rest());
        }
        n
    }

    /// Writes the last chunk, the trailer lines and the final line end.
    fn trailer_encode(&mut self, buf: &mut [u8], at: usize) -> (n: usize)
        requires
            at < old(buf)@.len(),
            old(self).stage == EncodeStage::Trailer,
        ensures
            old(self).advanced(final(self), old(buf)@, final(buf)@, at as int, n as int),
    {
        proof {
            use_type_invariant(&*self);
        }
        let ghost old_rest = self.rest();
        let ghost i0 = self.idx as int;
        let tail = closing_of(self.trailer_value.as_slice());
        let n: usize;
        if self.idx >= tail.len() {
            n = 0;
            self.stage = EncodeStage::Done;
            assert(buf@.subrange(at as int, at as int) =~= Seq::<u8>::empty());
            assert(old(self).rest() =~= Seq::<u8>::empty());
        } else {
            n = write_piece(tail.as_slice(), self.idx, buf, at);
            assert(tail@.skip(self.idx as int) =~= tail@.subrange(self.idx as int, self.idx + n) + tail@.skip(self.idx + n));
            if self.idx + n == tail.len() {
                self.stage = EncodeStage::Done;
                assert(tail@.skip(self.idx + n) =~= Seq::<u8>::empty());
            } else {
                self.idx = self.idx + n;
            }
        }
        assert(buf@.subrange(0, at as int) =~= old(buf)@.subrange(0, at as int));
        assert(buf@.subrange(at + n, buf@.len() as int) =~= old(buf)@.subrange(at + n, buf@.len() as int));
        proof {
            if n > 0 {
                assert(buf@.subrange(at as int, at + n) =~= tail@.subrange(i0, i0 + n));
            }
            assert(old_rest =~= buf@.subrange(at as int, at + n) + self.rest());
        }
        n
    }
}

impl<'a> Body for ChunkBody<'a> {
    type Error = Infallible;

    /// Writes the next octets of the coding, as many as fit.
    fn data(&mut self, buf: &mut [u8]) -> (r: Result<usize, Infallible>)
        ensures
            ({
                let rest = old(self).rest();
                let n: nat = if old(buf)@.len() < rest.len() { old(buf)@.len() } else { rest.len() };
                &&& r == Ok::<usize, Infallible>(n as usize)
                &&& final(buf)@ == rest.subrange(0, n as int) + old(buf)@.subrange(n as int, old(buf)@.len() as int)
                &&& final(self).rest() == rest.subrange(n as int, rest.len() as int)
                &&& final(self).source() == old(self).source()
                &&& final(self).trailer_bytes() == old(self).trailer_bytes()
            }),
    {
        let ghost rest0 = self.rest();
        let mut count: usize = 0;
        while count < buf.len() && self.stage != EncodeStage::Done
            invariant
                count <= buf@.len(),
                buf@.len() == old(buf)@.len(),
                rest0 == old(self).rest(),
                rest0 == buf@.subrange(0, count as int) + self.rest(),
                buf@.subrange(count as int, buf@.len() as int) == old(buf)@.subrange(count as int, buf@.len() as int),
                self.source() == old(self).source(),
                self.trailer_bytes() == old(self).trailer_bytes(),
            decreases self.measure(),
        {
            let ghost before = buf@;
            let ghost r0 = self.rest();
            let n = match self.stage {
                EncodeStage::Size => self.size_encode(buf, count),
                EncodeStage::SizeEnd => self.size_crlf_encode(buf, count),
                EncodeStage::Data => self.data_encode(buf, count),
                EncodeStage::DataEnd => self.data_crlf_encode(buf, count),
                _ => self.trailer_encode(buf, count),
            };
            proof {
                assert forall|j: int| count + n <= j < buf@.len() implies buf@[j] == old(buf)@[j] by {
                    assert(buf@[j] == buf@.subrange(count + n, buf@.len() as int)[j - count - n]);
                    assert(before[j] == before.subrange(count + n, buf@.len() as int)[j - count - n]);
                    assert(before[j] == before.subrange(count as int, buf@.len() as int)[j - count]);
                    assert(old(buf)@[j] == old(buf)@.subrange(count as int, buf@.len() as int)[j - count]);
                }
                assert(buf@.subrange(0, count as int) =~= before.subrange(0, count as int));
                assert(buf@.subrange(0, count + n) =~= buf@.subrange(0, count as int) + buf@.subrange(count as int, count + n));
                assert(buf@.subrange(count + n, buf@.len() as int) =~= old(buf)@.subrange(count + n, buf@.len() as int));
            }
            count = count + n;
        }
        proof {
            if count < buf@.len() {
                assert(self.rest() =~= Seq::<u8>::empty());
            }
            assert(rest0.subrange(0, count as int) =~= buf@.subrange(0, count as int));
            assert(self.rest() =~= rest0.subrange(count as int, rest0.len() as int));
            assert(buf@ =~= rest0.subrange(0, count as int) + old(buf)@.subrange(count as int, old(buf)@.len() as int));
        }
        Ok(count)
    }
}

} // verus!
