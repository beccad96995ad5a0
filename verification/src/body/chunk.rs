//! Chunked transfer coding of HTTP/1.1 (RFC 9112, section 7.1): a decoder of
//! chunked bodies delivered in pieces of any size.
use vstd::prelude::*;
use std::collections::HashMap;
use crate::error::{ErrorKind, HttpError};
use crate::headers::Headers;
use crate::body::trailer::{lemma_scan_done, lemma_scan_err, trailer_scan, trailer_step, trim_blanks, TrailerScan};

verus! {

/// The extensions of a chunk (none are kept).
#[derive(Debug, PartialEq, Eq)]
pub struct ChunkExt {
    map: HashMap<String, String>,
}

impl ChunkExt {
    /// The extensions.
    pub closed spec fn entries(&self) -> Map<String, String> {
        self.map@
    }

    /// Creates an empty set of extensions.
    pub fn new() -> (r: ChunkExt)
        ensures
            r.entries() == Map::<String, String>::empty(),
    {
        ChunkExt { map: HashMap::new() }
    }
}

/// How far a chunk has been read.
#[derive(Debug, PartialEq, Eq, Structural, Clone, Copy)]
pub enum ChunkState {
    /// Within the size.
    MetaSize,
    /// Within the extensions.
    MetaExt,
    /// Within the line end after size and extensions.
    MetaCrlf,
    /// Within the data.
    Data,
    /// Within the line end after the data.
    DataCrlf,
    /// The chunk is complete.
    Finish,
}

/// A chunk, or the part of it found in one piece of input.
#[derive(Debug, PartialEq, Eq)]
pub struct Chunk<'a> {
    /// Position of the chunk in the body.
    pub id: usize,
    /// How far the chunk has been read.
    pub state: ChunkState,
    /// The chunk size.
    pub size: usize,
    /// The chunk extensions.
    pub extension: ChunkExt,
    /// The data found in this piece of input.
    pub data: &'a [u8],
    /// The trailer bytes found in this piece of input.
    pub trailer: Option<&'a [u8]>,
}

/// The abstract value of a chunk without its position: state, size, data,
/// trailer bytes.
pub type ChunkV = (ChunkState, usize, Seq<u8>, Option<Seq<u8>>);

/// The abstract value of an optional slice.
pub open spec fn opt_seq(o: Option<&[u8]>) -> Option<Seq<u8>> {
    match o {
        Some(s) => Some(s@),
        None => None,
    }
}

/// The abstract value of a chunk without its position.
pub open spec fn chunk_view(c: Chunk) -> ChunkV {
    (c.state, c.size, c.data@, opt_seq(c.trailer))
}

/// The part of the body the decoder is in.
#[derive(Debug, PartialEq, Eq, Structural, Clone, Copy)]
pub enum Stage {
    /// The chunk size.
    Size,
    /// Chunk extensions.
    Extension,
    /// The line end after size and extensions.
    SizeEnd,
    /// Chunk data.
    Data,
    /// The line end after the data.
    DataEnd,
    /// The line end after the last chunk.
    TrailerCrlf,
    /// A trailer line.
    TrailerData,
    /// The line end after a trailer line.
    TrailerEndCrlf,
}

/// The abstract state of a chunk decoder.
#[verifier::ext_equal]
pub struct CState {
    /// Position of the next chunk.
    pub chunk_num: usize,
    /// Size of the current chunk.
    pub total_size: usize,
    /// Data octets of the current chunk still expected.
    pub rest_size: usize,
    /// The chunk size read so far.
    pub hex_count: i64,
    /// Trailer bytes gathered.
    pub trailer: Seq<u8>,
    /// A CR was read and its LF is awaited.
    pub cr_meet: bool,
    /// A nonzero digit of the size was read in this piece.
    pub chunk_flag: bool,
    /// A nonzero digit of the current size was read.
    pub num_flag: bool,
    /// The chunk of size zero was read.
    pub is_last_chunk: bool,
    /// The last chunk is followed by trailer lines.
    pub is_chunk_trailer: bool,
    /// The body may carry trailer lines.
    pub is_trailer: bool,
    /// A trailer line end was just read.
    pub is_trailer_crlf: bool,
    /// The part of the body the decoder is in.
    pub stage: Stage,
}

/// The outcome of decoding one piece: the state after, the chunk, and the
/// rest of the input.
pub type StepR = Result<(CState, ChunkV, Seq<u8>), ()>;

/// A chunk value.
pub open spec fn cv(state: ChunkState, size: usize, data: Seq<u8>, trailer: Option<Seq<u8>>) -> ChunkV {
    (state, size, data, trailer)
}

/// Appends a hexadecimal digit to the size: fails on overflow of an `i64`.
pub open spec fn hex_step(count: i64, d: i64) -> Option<i64> {
    let m = count * 16;
    if m < i64::MIN || m > i64::MAX {
        None
    } else if m + d < i64::MIN || m + d > i64::MAX {
        None
    } else {
        Some((m + d) as i64)
    }
}

/// The value of a hexadecimal digit other than `0`, if `b` is one.
pub open spec fn hex_digit(b: u8) -> Option<i64> {
    if 0x31 <= b <= 0x39 {
        Some((b - 0x30) as i64)
    } else if 0x61 <= b <= 0x66 {
        Some((b - 0x61 + 10) as i64)
    } else if 0x41 <= b <= 0x46 {
        Some((b - 0x41 + 10) as i64)
    } else {
        None
    }
}

/// The rest of `s` from `i`.
pub open spec fn from(s: Seq<u8>, i: int) -> Seq<u8> {
    s.subrange(i, s.len() as int)
}

/// After the data of a chunk: its line end.
pub open spec fn skip_last_crlf_at(s: CState, data: Seq<u8>, buf: Seq<u8>, i: int) -> StepR
    decreases buf.len() - i,
{
    if i < 0 || i >= buf.len() {
        Ok((s, cv(ChunkState::DataCrlf, s.total_size, data, None), Seq::empty()))
    } else if buf[i] == 0x0d {
        if s.cr_meet {
            Err(())
        } else {
            skip_last_crlf_at(CState { cr_meet: true, ..s }, data, buf, i + 1)
        }
    } else if buf[i] == 0x0a {
        if !s.cr_meet {
            Err(())
        } else {
            Ok((
                CState { cr_meet: false, stage: Stage::Size, total_size: 0, ..s },
                cv(ChunkState::Finish, s.total_size, data, None),
                from(buf, i + 1),
            ))
        }
    } else {
        Err(())
    }
}

/// The line end after the data of a chunk.
pub open spec fn skip_last_crlf(s: CState, data: Seq<u8>, buf: Seq<u8>) -> StepR {
    skip_last_crlf_at(CState { stage: Stage::DataEnd, ..s }, data, buf, 0)
}

/// Chunk data.
pub open spec fn decode_data(s: CState, buf: Seq<u8>) -> StepR {
    let s1 = CState { stage: Stage::Data, ..s };
    if buf.len() == 0 {
        Ok((s1, cv(ChunkState::Data, s.total_size, Seq::empty(), None), buf))
    } else if buf.len() >= s.rest_size {
        skip_last_crlf(
            CState { rest_size: 0, cr_meet: false, ..s1 },
            buf.subrange(0, s.rest_size as int),
            from(buf, s.rest_size as int),
        )
    } else {
        Ok((
            CState { rest_size: (s.rest_size - buf.len()) as usize, ..s1 },
            cv(ChunkState::Data, s.total_size, buf, None),
            Seq::empty(),
        ))
    }
}

/// The line end after the chunk size and extensions.
pub open spec fn skip_crlf_at(s: CState, buf: Seq<u8>, i: int) -> StepR
    decreases buf.len() - i,
{
    if i < 0 || i >= buf.len() {
        Ok((s, cv(ChunkState::MetaCrlf, s.total_size, Seq::empty(), None), Seq::empty()))
    } else if buf[i] == 0x0d {
        if s.cr_meet {
            Err(())
        } else {
            skip_crlf_at(CState { cr_meet: true, ..s }, buf, i + 1)
        }
    } else if buf[i] == 0x0a {
        if !s.cr_meet {
            Err(())
        } else {
            decode_data(CState { cr_meet: false, ..s }, from(buf, i + 1))
        }
    } else {
        Err(())
    }
}

/// The line end after the chunk size and extensions.
pub open spec fn skip_crlf(s: CState, buf: Seq<u8>) -> StepR {
    skip_crlf_at(CState { stage: Stage::SizeEnd, ..s }, buf, 0)
}

/// Chunk extensions, skipped up to the line end.
pub open spec fn skip_chunk_ext_at(s: CState, buf: Seq<u8>, i: int) -> StepR
    decreases buf.len() - i,
{
    if i < 0 || i >= buf.len() {
        Ok((s, cv(ChunkState::MetaExt, s.total_size, Seq::empty(), None), Seq::empty()))
    } else if buf[i] == 0x0d {
        if s.cr_meet {
            Err(())
        } else {
            skip_crlf(CState { cr_meet: true, ..s }, from(buf, i + 1))
        }
    } else if buf[i] == 0x0a {
        if !s.cr_meet {
            Err(())
        } else {
            skip_crlf(CState { cr_meet: false, ..s }, from(buf, i))
        }
    } else {
        skip_chunk_ext_at(s, buf, i + 1)
    }
}

/// After a trailer line: its line end, or the end of the body.
pub open spec fn skip_trailer_last_crlf_at(s: CState, data: Seq<u8>, buf: Seq<u8>, i: int) -> StepR
    decreases buf.len() - i,
{
    if i < 0 || i >= buf.len() {
        Ok((s, cv(ChunkState::DataCrlf, 0, Seq::empty(), Some(data)), Seq::empty()))
    } else if buf[i] == 0x0d {
        if s.cr_meet {
            Err(())
        } else {
            skip_trailer_last_crlf_at(CState { cr_meet: true, ..s }, data, buf, i + 1)
        }
    } else if buf[i] == 0x0a {
        if !s.cr_meet {
            Err(())
        } else if s.is_last_chunk {
            Ok((
                CState { cr_meet: false, stage: Stage::TrailerEndCrlf, ..s },
                cv(ChunkState::Finish, 0, Seq::empty(), Some(Seq::empty())),
                from(buf, i + 1),
            ))
        } else {
            Ok((
                CState { cr_meet: false, is_trailer_crlf: true, stage: Stage::TrailerData, ..s },
                cv(ChunkState::DataCrlf, 0, Seq::empty(), Some(data)),
                from(buf, i + 1),
            ))
        }
    } else {
        Err(())
    }
}

/// The line end after a trailer line.
pub open spec fn skip_trailer_last_crlf(s: CState, data: Seq<u8>, buf: Seq<u8>) -> StepR {
    skip_trailer_last_crlf_at(CState { stage: Stage::TrailerEndCrlf, ..s }, data, buf, 0)
}

/// A trailer line, up to its line end.
pub open spec fn decode_trailer_data_at(s: CState, buf: Seq<u8>, i: int) -> StepR
    decreases buf.len() - i,
{
    if i < 0 || i >= buf.len() {
        Ok((CState { is_trailer_crlf: false, ..s }, cv(ChunkState::Data, 0, Seq::empty(), Some(buf)), Seq::empty()))
    } else if buf[i] == 0x0d {
        if s.cr_meet {
            Err(())
        } else {
            skip_trailer_last_crlf(CState { cr_meet: true, ..s }, buf.subrange(0, i), from(buf, i + 1))
        }
    } else if buf[i] == 0x0a {
        if !s.cr_meet {
            Err(())
        } else {
            skip_trailer_last_crlf(CState { cr_meet: false, ..s }, buf.subrange(0, i), from(buf, i))
        }
    } else {
        decode_trailer_data_at(s, buf, i + 1)
    }
}

/// A trailer line; a line end right after the previous one ends the body.
pub open spec fn decode_trailer_data(s: CState, buf: Seq<u8>) -> StepR {
    let s1 = CState { stage: Stage::TrailerData, ..s };
    if buf.len() == 0 {
        Ok((s1, cv(ChunkState::Data, 0, Seq::empty(), Some(Seq::empty())), buf))
    } else {
        let s2 = if buf[0] == 0x0d && s.is_trailer_crlf { CState { is_last_chunk: true, ..s1 } } else { s1 };
        decode_trailer_data_at(s2, buf, 0)
    }
}

/// The line end after the last chunk's size and extensions.
pub open spec fn skip_trailer_crlf_at(s: CState, buf: Seq<u8>, i: int) -> StepR
    decreases buf.len() - i,
{
    if i < 0 || i >= buf.len() {
        Ok((s, cv(ChunkState::MetaCrlf, s.total_size, Seq::empty(), Some(Seq::empty())), Seq::empty()))
    } else if buf[i] == 0x0d {
        if s.cr_meet {
            Err(())
        } else {
            skip_trailer_crlf_at(CState { cr_meet: true, ..s }, buf, i + 1)
        }
    } else if buf[i] == 0x0a {
        if !s.cr_meet {
            Err(())
        } else {
            decode_trailer_data(CState { cr_meet: false, is_trailer_crlf: true, ..s }, from(buf, i + 1))
        }
    } else {
        Err(())
    }
}

/// The line end after the last chunk's size and extensions.
pub open spec fn skip_trailer_crlf(s: CState, buf: Seq<u8>) -> StepR {
    skip_trailer_crlf_at(CState { stage: Stage::TrailerCrlf, ..s }, buf, 0)
}

/// The last chunk's extensions, skipped up to the line end.
pub open spec fn skip_trailer_ext_at(s: CState, buf: Seq<u8>, i: int) -> StepR
    decreases buf.len() - i,
{
    if i < 0 || i >= buf.len() {
        Ok((s, cv(ChunkState::MetaExt, s.total_size, Seq::empty(), Some(Seq::empty())), Seq::empty()))
    } else if buf[i] == 0x0d {
        if s.cr_meet {
            Err(())
        } else {
            skip_trailer_crlf(CState { cr_meet: true, ..s }, from(buf, i + 1))
        }
    } else if buf[i] == 0x0a {
        if !s.cr_meet {
            Err(())
        } else {
            skip_trailer_crlf(CState { cr_meet: false, ..s }, from(buf, i))
        }
    } else {
        skip_trailer_ext_at(s, buf, i + 1)
    }
}

/// Chunk extensions.
pub open spec fn skip_extension(s: CState, buf: Seq<u8>) -> StepR {
    let s1 = CState { stage: Stage::Extension, ..s };
    if s.is_chunk_trailer {
        skip_trailer_ext_at(s1, buf, 0)
    } else {
        skip_chunk_ext_at(s1, buf, 0)
    }
}

/// The end of a chunk size: the size is taken, and a size of zero marks the
/// last chunk.
pub open spec fn decode_special_char(s: CState, buf: Seq<u8>) -> StepR {
    if s.is_chunk_trailer {
        skip_trailer_crlf(CState { num_flag: false, ..s }, buf)
    } else {
        let total = s.hex_count as usize;
        let s2 = CState { total_size: total, hex_count: 0, num_flag: false, ..s };
        if total == 0 {
            skip_extension(CState { is_last_chunk: true, ..s2 }, buf)
        } else {
            skip_extension(CState { rest_size: total, ..s2 }, buf)
        }
    }
}

/// Hexadecimal digits of a chunk size from `i` on.
pub open spec fn decode_size_at(s: CState, buf: Seq<u8>, i: int) -> StepR
    decreases buf.len() - i,
{
    if i < 0 || i >= buf.len() {
        Ok((s, cv(ChunkState::MetaSize, s.total_size, Seq::empty(), None), Seq::empty()))
    } else {
        let b = buf[i];
        if b == 0x30 {
            if buf.len() <= i + 1 || (buf[i + 1] != 0x3b && buf[i + 1] != 0x20 && buf[i + 1] != 0x0d) {
                match hex_step(s.hex_count, 0) {
                    None => Err(()),
                    Some(h) => decode_size_at(CState { hex_count: h, ..s }, buf, i + 1),
                }
            } else if s.is_trailer && !s.chunk_flag && !s.num_flag {
                skip_extension(CState { is_chunk_trailer: true, num_flag: false, ..s }, from(buf, i))
            } else {
                match hex_step(s.hex_count, 0) {
                    None => Err(()),
                    Some(h) => decode_size_at(CState { hex_count: h, ..s }, buf, i + 1),
                }
            }
        } else if hex_digit(b) is Some {
            match hex_step(s.hex_count, hex_digit(b)->0) {
                None => Err(()),
                Some(h) => decode_size_at(CState { hex_count: h, chunk_flag: true, num_flag: true, ..s }, buf, i + 1),
            }
        } else if b == 0x20 || b == 0x09 || b == 0x3b || b == 0x0d || b == 0x0a {
            decode_special_char(s, from(buf, i))
        } else {
            Err(())
        }
    }
}

/// A chunk size.
pub open spec fn decode_size(s: CState, buf: Seq<u8>) -> StepR {
    let s1 = CState { stage: Stage::Size, ..s };
    if buf.len() == 0 {
        Ok((s1, cv(ChunkState::MetaSize, s.total_size, Seq::empty(), None), buf))
    } else {
        decode_size_at(CState { chunk_flag: false, ..s1 }, buf, 0)
    }
}

/// One step of decoding from the current stage.
#[verifier::opaque]
pub open spec fn decode_step(s: CState, buf: Seq<u8>) -> StepR {
    match s.stage {
        Stage::Size => decode_size(s, buf),
        Stage::Extension => skip_extension(s, buf),
        Stage::SizeEnd => skip_crlf(s, buf),
        Stage::Data => decode_data(s, buf),
        Stage::DataEnd => skip_last_crlf(s, Seq::empty(), buf),
        Stage::TrailerCrlf => skip_trailer_crlf(s, buf),
        Stage::TrailerData => decode_trailer_data(s, buf),
        Stage::TrailerEndCrlf => skip_trailer_last_crlf(s, Seq::empty(), buf),
    }
}

/// Trailer bytes gathered after a chunk: a complete trailer line is
/// followed by CRLF.
pub open spec fn merged_trailer(t: Seq<u8>, c: ChunkV) -> Seq<u8> {
    match c.3 {
        Some(more) => if c.0 == ChunkState::Finish || c.0 == ChunkState::DataCrlf {
            if (t + more).len() > 0 { t + more + seq![0x0du8, 0x0au8] } else { t + more }
        } else {
            t + more
        },
        None => t,
    }
}

/// The position after `n`, wrapping to 0 at the top of the range.
pub open spec fn next_id(n: usize) -> usize {
    if n < usize::MAX { (n + 1) as usize } else { 0 }
}

/// After a chunk is decoded: the state, and whether decoding stops.
pub open spec fn after_chunk(s: CState, c: ChunkV, rest: Seq<u8>) -> (CState, bool) {
    if c.0 != ChunkState::Finish {
        if s.is_chunk_trailer && (c.0 == ChunkState::Data || c.0 == ChunkState::DataCrlf) {
            (CState { chunk_num: next_id(s.chunk_num), ..s }, rest.len() == 0)
        } else {
            (s, true)
        }
    } else if s.is_last_chunk {
        (CState { is_last_chunk: false, chunk_num: 0, ..s }, true)
    } else {
        (CState { chunk_num: next_id(s.chunk_num), ..s }, rest.len() == 0)
    }
}

/// Decodes `buf`: the state after, the chunks with their positions, and the
/// input left after the last chunk decoded.
#[verifier::opaque]
pub open spec fn decode_chunks(s: CState, buf: Seq<u8>) -> Result<(CState, Seq<(usize, ChunkV)>, Seq<u8>), ()>
    decreases buf.len(),
{
    match decode_step(s, buf) {
        Err(()) => Err(()),
        Ok((s1, c, rest)) => {
            let s2 = CState { trailer: merged_trailer(s1.trailer, c), ..s1 };
            let (s3, stop) = after_chunk(s2, c, rest);
            let item = (s1.chunk_num, c);
            if stop || rest.len() >= buf.len() {
                Ok((s3, seq![item], rest))
            } else {
                match decode_chunks(s3, rest) {
                    Err(()) => Err(()),
                    Ok((s4, items, left)) => Ok((s4, seq![item] + items, left)),
                }
            }
        },
    }
}

/// The outcome of one step matches its abstract value: the chunk (at
/// position 0, without extensions), the rest of the input and the state.
pub open spec fn step_matches<'a>(res: StepR, r: Result<(Chunk<'a>, &'a [u8]), HttpError>, fin: CState) -> bool {
    match res {
        Ok((s, c, rest)) => {
            &&& r matches Ok((ch, rm)) && chunk_view(ch) == c && rm@ == rest && ch.id == 0
                && ch.extension.entries() == Map::<String, String>::empty()
            &&& fin == s
        },
        Err(()) => r matches Err(e) && e.kind == ErrorKind::InvalidInput,
    }
}

fn invalid() -> (r: HttpError)
    ensures
        r.kind == ErrorKind::InvalidInput,
{
    HttpError::from_kind(ErrorKind::InvalidInput)
}

/// Decoder of chunked bodies.
pub struct ChunkBodyDecoder {
    chunk_num: usize,
    total_size: usize,
    rest_size: usize,
    hex_count: i64,
    trailer: Vec<u8>,
    cr_meet: bool,
    chunk_flag: bool,
    num_flag: bool,
    is_last_chunk: bool,
    is_chunk_trailer: bool,
    is_trailer: bool,
    is_trailer_crlf: bool,
    stage: Stage,
}

/// The state of a new decoder.
pub open spec fn initial_cstate() -> CState {
    CState {
        chunk_num: 0,
        total_size: 0,
        rest_size: 0,
        hex_count: 0,
        trailer: Seq::empty(),
        cr_meet: false,
        chunk_flag: false,
        num_flag: false,
        is_last_chunk: false,
        is_chunk_trailer: false,
        is_trailer: false,
        is_trailer_crlf: false,
        stage: Stage::Size,
    }
}

impl Default for ChunkBodyDecoder {
    fn default() -> (r: ChunkBodyDecoder)
        ensures
            r.st() == initial_cstate(),
    {
        ChunkBodyDecoder::new()
    }
}

impl ChunkBodyDecoder {
    /// The abstract state.
    pub closed spec fn st(&self) -> CState {
        CState {
            chunk_num: self.chunk_num,
            total_size: self.total_size,
            rest_size: self.rest_size,
            hex_count: self.hex_count,
            trailer: self.trailer@,
            cr_meet: self.cr_meet,
            chunk_flag: self.chunk_flag,
            num_flag: self.num_flag,
            is_last_chunk: self.is_last_chunk,
            is_chunk_trailer: self.is_chunk_trailer,
            is_trailer: self.is_trailer,
            is_trailer_crlf: self.is_trailer_crlf,
            stage: self.stage,
        }
    }

    /// Creates a decoder.
    pub fn new() -> (r: ChunkBodyDecoder)
        ensures
            r.st() == initial_cstate(),
    {
        let r = ChunkBodyDecoder {
            chunk_num: 0,
            total_size: 0,
            rest_size: 0,
            hex_count: 0,
            trailer: Vec::new(),
            cr_meet: false,
            chunk_flag: false,
            num_flag: false,
            is_last_chunk: false,
            is_chunk_trailer: false,
            is_trailer: false,
            is_trailer_crlf: false,
            stage: Stage::Size,
        };
        assert(r.st() =~= initial_cstate());
        r
    }

    /// Sets whether the body may end with trailer lines.
    pub fn contains_trailer(self, contain_trailer: bool) -> (r: ChunkBodyDecoder)
        ensures
            r.st() == (CState { is_trailer: contain_trailer, ..self.st() }),
    {
        let mut s = self;
        s.is_trailer = contain_trailer;
        s
    }

    fn sized_chunk<'a>(data: &'a [u8], trailer: Option<&'a [u8]>, size: usize, state: ChunkState) -> (r: Chunk<'a>)
        ensures
            chunk_view(r) == cv(state, size, data@, opt_seq(trailer)),
            r.id == 0,
            r.extension.entries() == Map::<String, String>::empty(),
    {
        Chunk { id: 0, state, size, extension: ChunkExt::new(), data, trailer }
    }

    fn decode_cr(&mut self) -> (r: Result<(), HttpError>)
        ensures
            old(self).cr_meet ==> (r matches Err(e) && e.kind == ErrorKind::InvalidInput),
            !old(self).cr_meet ==> r is Ok && final(self).st() == (CState { cr_meet: true, ..old(self).st() }),
    {
        if self.cr_meet {
            return Err(invalid());
        }
        self.cr_meet = true;
        Ok(())
    }

    fn decode_lf(&mut self) -> (r: Result<(), HttpError>)
        ensures
            !old(self).cr_meet ==> (r matches Err(e) && e.kind == ErrorKind::InvalidInput),
            old(self).cr_meet ==> r is Ok && final(self).st() == (CState { cr_meet: false, ..old(self).st() }),
    {
        if !self.cr_meet {
            return Err(invalid());
        }
        self.cr_meet = false;
        Ok(())
    }

    fn skip_last_crlf<'a>(&mut self, data: &'a [u8], buf: &'a [u8]) -> (r: Result<(Chunk<'a>, &'a [u8]), HttpError>)
        ensures
            step_matches(skip_last_crlf(old(self).st(), data@, buf@), r, final(self).st()),
    {
        self.stage = Stage::DataEnd;
        let mut i: usize = 0;
        while i < buf.len()
            invariant
                i <= buf@.len(),
                skip_last_crlf(old(self).st(), data@, buf@) == skip_last_crlf_at(self.st(), data@, buf@, i as int),
            decreases buf@.len() - i,
        {
            let b = buf[i];
            if b == 0x0d {
                match self.decode_cr() {
                    Err(e) => {
                        return Err(e);
                    },
                    Ok(()) => {},
                }
            } else if b == 0x0a {
                match self.decode_lf() {
                    Err(e) => {
                        return Err(e);
                    },
                    Ok(()) => {},
                }
                self.stage = Stage::Size;
                let complete_chunk = Self::sized_chunk(data, None, self.total_size, ChunkState::Finish);
                self.total_size = 0;
                return Ok((complete_chunk, &buf[i + 1..buf.len()]));
            } else {
                return Err(invalid());
            }
            i = i + 1;
        }
        let r = Ok((Self::sized_chunk(data, None, self.total_size, ChunkState::DataCrlf), &buf[buf.len()..buf.len()]));
        assert(buf@.subrange(buf@.len() as int, buf@.len() as int) =~= Seq::<u8>::empty());
        r
    }
}

impl ChunkBodyDecoder {
    fn decode_data<'a>(&mut self, buf: &'a [u8]) -> (r: Result<(Chunk<'a>, &'a [u8]), HttpError>)
        ensures
            step_matches(decode_data(old(self).st(), buf@), r, final(self).st()),
    {
        self.stage = Stage::Data;
        if buf.len() == 0 {
            assert(buf@.subrange(0, 0) =~= Seq::<u8>::empty());
            return Ok((Self::sized_chunk(&buf[0..0], None, self.total_size, ChunkState::Data), buf));
        }
        let rest = self.rest_size;
        if buf.len() >= rest {
            self.rest_size = 0;
            self.cr_meet = false;
            self.skip_last_crlf(&buf[0..rest], &buf[rest..buf.len()])
        } else {
            self.rest_size = self.rest_size - buf.len();
            let r = Ok((Self::sized_chunk(buf, None, self.total_size, ChunkState::Data), &buf[buf.len()..buf.len()]));
            assert(buf@.subrange(buf@.len() as int, buf@.len() as int) =~= Seq::<u8>::empty());
            r
        }
    }

    fn skip_crlf<'a>(&mut self, buf: &'a [u8]) -> (r: Result<(Chunk<'a>, &'a [u8]), HttpError>)
        ensures
            step_matches(skip_crlf(old(self).st(), buf@), r, final(self).st()),
    {
        self.stage = Stage::SizeEnd;
        let mut i: usize = 0;
        while i < buf.len()
            invariant
                i <= buf@.len(),
                skip_crlf(old(self).st(), buf@) == skip_crlf_at(self.st(), buf@, i as int),
            decreases buf@.len() - i,
        {
            let b = buf[i];
            if b == 0x0d {
                match self.decode_cr() {
                    Err(e) => {
                        return Err(e);
                    },
                    Ok(()) => {},
                }
            } else if b == 0x0a {
                match self.decode_lf() {
                    Err(e) => {
                        return Err(e);
                    },
                    Ok(()) => {},
                }
                return self.decode_data(&buf[i + 1..buf.len()]);
            } else {
                return Err(invalid());
            }
            i = i + 1;
        }
        let r = Ok((Self::sized_chunk(&buf[0..0], None, self.total_size, ChunkState::MetaCrlf), &buf[buf.len()..buf.len()]));
        assert(buf@.subrange(0, 0) =~= Seq::<u8>::empty());
        assert(buf@.subrange(buf@.len() as int, buf@.len() as int) =~= Seq::<u8>::empty());
        r
    }

    fn skip_chunk_ext<'a>(&mut self, buf: &'a [u8]) -> (r: Result<(Chunk<'a>, &'a [u8]), HttpError>)
        ensures
            step_matches(skip_chunk_ext_at(old(self).st(), buf@, 0), r, final(self).st()),
    {
        let mut i: usize = 0;
        while i < buf.len()
            invariant
                i <= buf@.len(),
                self.st() == old(self).st(),
                skip_chunk_ext_at(old(self).st(), buf@, 0) == skip_chunk_ext_at(self.st(), buf@, i as int),
            decreases buf@.len() - i,
        {
            let b = buf[i];
            if b == 0x0d {
                match self.decode_cr() {
                    Err(e) => {
                        return Err(e);
                    },
                    Ok(()) => {},
                }
                return self.skip_crlf(&buf[i + 1..buf.len()]);
            } else if b == 0x0a {
                match self.decode_lf() {
                    Err(e) => {
                        return Err(e);
                    },
                    Ok(()) => {},
                }
                return self.skip_crlf(&buf[i..buf.len()]);
            }
            i = i + 1;
        }
        let r = Ok((Self::sized_chunk(&buf[0..0], None, self.total_size, ChunkState::MetaExt), &buf[buf.len()..buf.len()]));
        assert(buf@.subrange(0, 0) =~= Seq::<u8>::empty());
        assert(buf@.subrange(buf@.len() as int, buf@.len() as int) =~= Seq::<u8>::empty());
        r
    }

    fn skip_trailer_last_crlf<'a>(&mut self, data: &'a [u8], buf: &'a [u8]) -> (r: Result<(Chunk<'a>, &'a [u8]), HttpError>)
        ensures
            step_matches(skip_trailer_last_crlf(old(self).st(), data@, buf@), r, final(self).st()),
    {
        self.stage = Stage::TrailerEndCrlf;
        let mut i: usize = 0;
        while i < buf.len()
            invariant
                i <= buf@.len(),
                skip_trailer_last_crlf(old(self).st(), data@, buf@) == skip_trailer_last_crlf_at(self.st(), data@, buf@, i as int),
            decreases buf@.len() - i,
        {
            let b = buf[i];
            if b == 0x0d {
                match self.decode_cr() {
                    Err(e) => {
                        return Err(e);
                    },
                    Ok(()) => {},
                }
            } else if b == 0x0a {
                match self.decode_lf() {
                    Err(e) => {
                        return Err(e);
                    },
                    Ok(()) => {},
                }
                if self.is_last_chunk {
                    self.stage = Stage::TrailerEndCrlf;
                    let r = Ok((Self::sized_chunk(&buf[0..0], Some(&buf[0..0]), 0, ChunkState::Finish), &buf[i + 1..buf.len()]));
                    assert(buf@.subrange(0, 0) =~= Seq::<u8>::empty());
                    return r;
                } else {
                    self.cr_meet = false;
                    self.is_trailer_crlf = true;
                    self.stage = Stage::TrailerData;
                    let r = Ok((Self::sized_chunk(&data[0..0], Some(data), 0, ChunkState::DataCrlf), &buf[i + 1..buf.len()]));
                    assert(data@.subrange(0, 0) =~= Seq::<u8>::empty());
                    return r;
                }
            } else {
                return Err(invalid());
            }
            i = i + 1;
        }
        let r = Ok((Self::sized_chunk(&data[0..0], Some(data), 0, ChunkState::DataCrlf), &buf[buf.len()..buf.len()]));
        assert(data@.subrange(0, 0) =~= Seq::<u8>::empty());
        assert(buf@.subrange(buf@.len() as int, buf@.len() as int) =~= Seq::<u8>::empty());
        r
    }

    fn decode_trailer_data<'a>(&mut self, buf: &'a [u8]) -> (r: Result<(Chunk<'a>, &'a [u8]), HttpError>)
        ensures
            step_matches(decode_trailer_data(old(self).st(), buf@), r, final(self).st()),
    {
        self.stage = Stage::TrailerData;
        if buf.len() == 0 {
            let r = Ok((Self::sized_chunk(&buf[0..0], Some(&buf[0..0]), 0, ChunkState::Data), &buf[buf.len()..buf.len()]));
            assert(buf@.subrange(0, 0) =~= Seq::<u8>::empty());
            assert(buf@.subrange(0, 0) =~= buf@);
            return r;
        }
        if buf[0] == 0x0d && self.is_trailer_crlf {
            self.is_last_chunk = true;
        }
        let ghost s2 = self.st();
        let mut i: usize = 0;
        while i < buf.len()
            invariant
                i <= buf@.len(),
                self.st() == s2,
                decode_trailer_data(old(self).st(), buf@) == decode_trailer_data_at(s2, buf@, i as int),
            decreases buf@.len() - i,
        {
            let b = buf[i];
            if b == 0x0d {
                match self.decode_cr() {
                    Err(e) => {
                        return Err(e);
                    },
                    Ok(()) => {},
                }
                return self.skip_trailer_last_crlf(&buf[0..i], &buf[i + 1..buf.len()]);
            } else if b == 0x0a {
                match self.decode_lf() {
                    Err(e) => {
                        return Err(e);
                    },
                    Ok(()) => {},
                }
                return self.skip_trailer_last_crlf(&buf[0..i], &buf[i..buf.len()]);
            }
            i = i + 1;
        }
        self.is_trailer_crlf = false;
        let r = Ok((Self::sized_chunk(&buf[0..0], Some(buf), 0, ChunkState::Data), &buf[buf.len()..buf.len()]));
        assert(buf@.subrange(0, 0) =~= Seq::<u8>::empty());
        assert(buf@.subrange(buf@.len() as int, buf@.len() as int) =~= Seq::<u8>::empty());
        r
    }

    fn skip_trailer_crlf<'a>(&mut self, buf: &'a [u8]) -> (r: Result<(Chunk<'a>, &'a [u8]), HttpError>)
        ensures
            step_matches(skip_trailer_crlf(old(self).st(), buf@), r, final(self).st()),
    {
        self.stage = Stage::TrailerCrlf;
        let mut i: usize = 0;
        while i < buf.len()
            invariant
                i <= buf@.len(),
                skip_trailer_crlf(old(self).st(), buf@) == skip_trailer_crlf_at(self.st(), buf@, i as int),
            decreases buf@.len() - i,
        {
            let b = buf[i];
            if b == 0x0d {
                match self.decode_cr() {
                    Err(e) => {
                        return Err(e);
                    },
                    Ok(()) => {},
                }
            } else if b == 0x0a {
                match self.decode_lf() {
                    Err(e) => {
                        return Err(e);
                    },
                    Ok(()) => {},
                }
                self.is_trailer_crlf = true;
                return self.decode_trailer_data(&buf[i + 1..buf.len()]);
            } else {
                return Err(invalid());
            }
            i = i + 1;
        }
        let r = Ok((Self::sized_chunk(&buf[0..0], Some(&buf[0..0]), self.total_size, ChunkState::MetaCrlf), &buf[buf.len()..buf.len()]));
        assert(buf@.subrange(0, 0) =~= Seq::<u8>::empty());
        assert(buf@.subrange(buf@.len() as int, buf@.len() as int) =~= Seq::<u8>::empty());
        r
    }

    fn skip_trailer_ext<'a>(&mut self, buf: &'a [u8]) -> (r: Result<(Chunk<'a>, &'a [u8]), HttpError>)
        ensures
            step_matches(skip_trailer_ext_at(old(self).st(), buf@, 0), r, final(self).st()),
    {
        let mut i: usize = 0;
        while i < buf.len()
            invariant
                i <= buf@.len(),
                self.st() == old(self).st(),
                skip_trailer_ext_at(old(self).st(), buf@, 0) == skip_trailer_ext_at(self.st(), buf@, i as int),
            decreases buf@.len() - i,
        {
            let b = buf[i];
            if b == 0x0d {
                match self.decode_cr() {
                    Err(e) => {
                        return Err(e);
                    },
                    Ok(()) => {},
                }
                return self.skip_trailer_crlf(&buf[i + 1..buf.len()]);
            } else if b == 0x0a {
                match self.decode_lf() {
                    Err(e) => {
                        return Err(e);
                    },
                    Ok(()) => {},
                }
                return self.skip_trailer_crlf(&buf[i..buf.len()]);
            }
            i = i + 1;
        }
        let r = Ok((Self::sized_chunk(&buf[0..0], Some(&buf[0..0]), self.total_size, ChunkState::MetaExt), &buf[buf.len()..buf.len()]));
        assert(buf@.subrange(0, 0) =~= Seq::<u8>::empty());
        assert(buf@.subrange(buf@.len() as int, buf@.len() as int) =~= Seq::<u8>::empty());
        r
    }

    fn skip_extension<'a>(&mut self, buf: &'a [u8]) -> (r: Result<(Chunk<'a>, &'a [u8]), HttpError>)
        ensures
            step_matches(skip_extension(old(self).st(), buf@), r, final(self).st()),
    {
        self.stage = Stage::Extension;
        if self.is_chunk_trailer {
            self.skip_trailer_ext(buf)
        } else {
            self.skip_chunk_ext(buf)
        }
    }

    fn decode_special_char<'a>(&mut self, buf: &'a [u8]) -> (r: Result<(Chunk<'a>, &'a [u8]), HttpError>)
        ensures
            step_matches(decode_special_char(old(self).st(), buf@), r, final(self).st()),
    {
        if self.is_chunk_trailer {
            self.num_flag = false;
            self.skip_trailer_crlf(buf)
        } else {
            self.total_size = self.hex_count as usize;
            self.hex_count = 0;
            self.num_flag = false;
            if self.total_size == 0 {
                self.is_last_chunk = true;
                self.skip_extension(buf)
            } else {
                self.rest_size = self.total_size;
                self.skip_extension(buf)
            }
        }
    }

    fn hex_to_decimal(count: i64, num: i64) -> (r: Result<i64, HttpError>)
        ensures
            match hex_step(count, num) {
                Some(v) => r == Ok::<i64, HttpError>(v),
                None => r matches Err(e) && e.kind == ErrorKind::InvalidInput,
            },
    {
        let m = match count.checked_mul(16) {
            Some(m) => m,
            None => {
                return Err(invalid());
            },
        };
        match m.checked_add(num) {
            Some(v) => Ok(v),
            None => Err(invalid()),
        }
    }

    fn decode_size<'a>(&mut self, buf: &'a [u8]) -> (r: Result<(Chunk<'a>, &'a [u8]), HttpError>)
        ensures
            step_matches(decode_size(old(self).st(), buf@), r, final(self).st()),
    {
        self.stage = Stage::Size;
        if buf.len() == 0 {
            assert(buf@.subrange(0, 0) =~= Seq::<u8>::empty());
            return Ok((Self::sized_chunk(&buf[0..0], None, self.total_size, ChunkState::MetaSize), buf));
        }
        self.chunk_flag = false;
        let mut i: usize = 0;
        while i < buf.len()
            invariant
                i <= buf@.len(),
                decode_size(old(self).st(), buf@) == decode_size_at(self.st(), buf@, i as int),
            decreases buf@.len() - i,
        {
            let b = buf[i];
            if b == 0x30 {
                if buf.len() <= i + 1 || (buf[i + 1] != 0x3b && buf[i + 1] != 0x20 && buf[i + 1] != 0x0d) {
                    match Self::hex_to_decimal(self.hex_count, 0) {
                        Ok(v) => {
                            self.hex_count = v;
                        },
                        Err(e) => {
                            return Err(e);
                        },
                    }
                } else if self.is_trailer && !self.chunk_flag && !self.num_flag {
                    self.is_chunk_trailer = true;
                    self.num_flag = false;
                    return self.skip_extension(&buf[i..buf.len()]);
                } else {
                    match Self::hex_to_decimal(self.hex_count, 0) {
                        Ok(v) => {
                            self.hex_count = v;
                        },
                        Err(e) => {
                            return Err(e);
                        },
                    }
                }
            } else if 0x31 <= b && b <= 0x39 || 0x61 <= b && b <= 0x66 || 0x41 <= b && b <= 0x46 {
                let d: i64 = if b <= 0x39 {
                    (b - 0x30) as i64
                } else if b >= 0x61 {
                    (b - 0x61 + 10) as i64
                } else {
                    (b - 0x41 + 10) as i64
                };
                match Self::hex_to_decimal(self.hex_count, d) {
                    Ok(v) => {
                        self.hex_count = v;
                    },
                    Err(e) => {
                        return Err(e);
                    },
                }
                self.chunk_flag = true;
                self.num_flag = true;
            } else if b == 0x20 || b == 0x09 || b == 0x3b || b == 0x0d || b == 0x0a {
                return self.decode_special_char(&buf[i..buf.len()]);
            } else {
                return Err(invalid());
            }
            i = i + 1;
        }
        let r = Ok((Self::sized_chunk(&buf[0..0], None, self.total_size, ChunkState::MetaSize), &buf[buf.len()..buf.len()]));
        assert(buf@.subrange(0, 0) =~= Seq::<u8>::empty());
        assert(buf@.subrange(buf@.len() as int, buf@.len() as int) =~= Seq::<u8>::empty());
        r
    }
}

/// Prepends decoded chunks to the outcome of decoding the rest.
pub open spec fn prepend_chunks(
    items: Seq<(usize, ChunkV)>,
    r: Result<(CState, Seq<(usize, ChunkV)>, Seq<u8>), ()>,
) -> Result<(CState, Seq<(usize, ChunkV)>, Seq<u8>), ()> {
    match r {
        Ok((s, more, left)) => Ok((s, items + more, left)),
        Err(_) => r,
    }
}

/// Putting no chunk in front changes nothing.
proof fn lemma_prepend_nothing(r: Result<(CState, Seq<(usize, ChunkV)>, Seq<u8>), ()>)
    ensures
        prepend_chunks(Seq::<(usize, ChunkV)>::empty(), r) == r,
{
    if r is Ok {
        assert(Seq::<(usize, ChunkV)>::empty() + r->Ok_0.1 =~= r->Ok_0.1);
    }
}

/// A failed step fails the whole decoding.
proof fn lemma_decode_chunks_err(s: CState, buf: Seq<u8>)
    ensures
        decode_step(s, buf) is Err ==> decode_chunks(s, buf) is Err,
{
    reveal(decode_chunks);
}

/// One step of the decoding, seen from a list of chunks already decoded.
proof fn lemma_decode_chunks_next(
    s: CState,
    buf: Seq<u8>,
    s1: CState,
    c: ChunkV,
    rest: Seq<u8>,
    items0: Seq<(usize, ChunkV)>,
)
    requires
        decode_step(s, buf) == Ok::<(CState, ChunkV, Seq<u8>), ()>((s1, c, rest)),
    ensures
        ({
            let s2 = CState { trailer: merged_trailer(s1.trailer, c), ..s1 };
            let (s3, stop) = after_chunk(s2, c, rest);
            let item = (s1.chunk_num, c);
            &&& (stop || rest.len() >= buf.len()) ==> prepend_chunks(items0, decode_chunks(s, buf))
                == Ok::<(CState, Seq<(usize, ChunkV)>, Seq<u8>), ()>((s3, items0.push(item), rest))
            &&& !(stop || rest.len() >= buf.len()) ==> prepend_chunks(items0, decode_chunks(s, buf))
                == prepend_chunks(items0.push(item), decode_chunks(s3, rest))
        }),
{
    reveal(decode_chunks);
    let s2 = CState { trailer: merged_trailer(s1.trailer, c), ..s1 };
    let (s3, stop) = after_chunk(s2, c, rest);
    let item = (s1.chunk_num, c);
    assert(items0 + seq![item] =~= items0.push(item));
    if !(stop || rest.len() >= buf.len()) {
        match decode_chunks(s3, rest) {
            Ok((s4, more, left)) => {
                assert(items0.push(item) + more =~= items0 + (seq![item] + more));
            },
            Err(()) => {},
        }
    }
}

/// The chunks decoded from one piece of input.
#[derive(Debug, PartialEq, Eq)]
pub struct Chunks<'a> {
    chunks: Vec<Chunk<'a>>,
}

/// A borrowing cursor over `Chunks`.
pub struct ChunksIter<'b, 'a> {
    list: &'b [Chunk<'a>],
    pos: usize,
}

/// A consuming cursor over `Chunks`.
pub struct ChunksIntoIter<'a> {
    rev: Vec<Chunk<'a>>,
}

impl<'a> Chunks<'a> {
    /// The chunks with their positions, in order.
    pub closed spec fn items(&self) -> Seq<(usize, ChunkV)> {
        Seq::new(self.chunks@.len(), |i: int| (self.chunks@[i].id, chunk_view(self.chunks@[i])))
    }

    /// No chunk carries extensions.
    pub closed spec fn no_extensions(&self) -> bool {
        forall|i: int| 0 <= i < self.chunks@.len() ==> (#[trigger] self.chunks@[i]).extension.entries() == Map::<String, String>::empty()
    }

    /// Creates an empty list.
    pub fn new() -> (r: Chunks<'a>)
        ensures
            r.items() == Seq::<(usize, ChunkV)>::empty(),
            r.no_extensions(),
    {
        let r = Chunks { chunks: Vec::new() };
        assert(r.items() =~= Seq::<(usize, ChunkV)>::empty());
        r
    }

    /// Appends a chunk.
    pub fn push(&mut self, chunk: Chunk<'a>)
        ensures
            final(self).items() == old(self).items().push((chunk.id, chunk_view(chunk))),
            final(self).no_extensions() == (old(self).no_extensions() && chunk.extension.entries() == Map::<String, String>::empty()),
    {
        let ghost item = (chunk.id, chunk_view(chunk));
        let ghost ext = chunk.extension.entries();
        self.chunks.push(chunk);
        proof {
            if !old(self).no_extensions() {
                let i = choose|i: int| 0 <= i < old(self).chunks@.len() && !(old(self).chunks@[i].extension.entries() == Map::<String, String>::empty());
                assert(self.chunks@[i] == old(self).chunks@[i]);
            }
            assert(self.chunks@[old(self).chunks@.len() as int].extension.entries() == ext);
        }
        assert(self.items() =~= old(self).items().push(item));
    }

    /// Returns a cursor over the chunks.
    pub fn iter(&self) -> (r: ChunksIter<'_, 'a>)
        ensures
            r.wf(),
            r.remaining() == self.items(),
            self.no_extensions() ==> r.no_extensions(),
    {
        let r = ChunksIter { list: self.chunks.as_slice(), pos: 0 };
        assert(r.remaining() =~= self.items());
        r
    }

    /// Returns a consuming cursor over the chunks.
    pub fn into_iter(self) -> (r: ChunksIntoIter<'a>)
        ensures
            r.remaining() == self.items(),
            self.no_extensions() ==> r.no_extensions(),
    {
        let ghost ne = self.no_extensions();
        let ghost items = self.items();
        let mut list = self.chunks;
        let mut rev: Vec<Chunk<'a>> = Vec::new();
        while list.len() > 0
            invariant
                list@.len() + rev@.len() == items.len(),
                forall|i: int| 0 <= i < list@.len() ==> (#[trigger] list@[i]).id == items[i].0 && chunk_view(list@[i]) == items[i].1,
                forall|i: int| 0 <= i < rev@.len() ==> (#[trigger] rev@[i]).id == items[items.len() - 1 - i].0
                    && chunk_view(rev@[i]) == items[items.len() - 1 - i].1,
                ne ==> forall|i: int| 0 <= i < list@.len() ==> (#[trigger] list@[i]).extension.entries() == Map::<String, String>::empty(),
                ne ==> forall|i: int| 0 <= i < rev@.len() ==> (#[trigger] rev@[i]).extension.entries() == Map::<String, String>::empty(),
            decreases list@.len(),
        {
            let c = list.pop().unwrap();
            rev.push(c);
        }
        let r = ChunksIntoIter { rev };
        assert(r.remaining() =~= items);
        r
    }

    /// Returns the number of chunks.
    pub fn len(&self) -> (r: usize)
        ensures
            r == self.items().len(),
    {
        self.chunks.len()
    }
}

impl<'b, 'a> ChunksIter<'b, 'a> {
    /// The cursor lies within the chunks.
    pub closed spec fn wf(&self) -> bool {
        self.pos <= self.list@.len()
    }

    /// No chunk not yet returned carries extensions.
    pub closed spec fn no_extensions(&self) -> bool {
        forall|i: int| self.pos <= i < self.list@.len() ==> (#[trigger] self.list@[i]).extension.entries() == Map::<String, String>::empty()
    }

    /// The chunks not yet returned.
    pub closed spec fn remaining(&self) -> Seq<(usize, ChunkV)> {
        Seq::new((self.list@.len() - self.pos) as nat, |i: int| (self.list@[self.pos + i].id, chunk_view(self.list@[self.pos + i])))
    }

    /// Returns the next chunk, if any.
    pub fn next(&mut self) -> (r: Option<&'b Chunk<'a>>)
        requires
            old(self).wf(),
        ensures
            final(self).wf(),
            old(self).remaining().len() == 0 ==> r is None && final(self).remaining() == old(self).remaining(),
            old(self).remaining().len() > 0 ==> (r matches Some(c) && (c.id, chunk_view(*c)) == old(self).remaining()[0]
                && final(self).remaining() == old(self).remaining().drop_first()),
            old(self).no_extensions() ==> final(self).no_extensions() && (r matches Some(c) ==> c.extension.entries() == Map::<String, String>::empty()),
    {
        if self.pos < self.list.len() {
            let c = &self.list[self.pos];
            self.pos = self.pos + 1;
            assert(self.remaining() =~= old(self).remaining().drop_first());
            Some(c)
        } else {
            None
        }
    }

    /// The number of chunks not yet returned.
    pub fn len(&self) -> (r: usize)
        requires
            self.wf(),
        ensures
            r == self.remaining().len(),
    {
        self.list.len() - self.pos
    }
}

impl<'a> ChunksIntoIter<'a> {
    /// No chunk not yet returned carries extensions.
    pub closed spec fn no_extensions(&self) -> bool {
        forall|i: int| 0 <= i < self.rev@.len() ==> (#[trigger] self.rev@[i]).extension.entries() == Map::<String, String>::empty()
    }

    /// The chunks not yet returned.
    pub closed spec fn remaining(&self) -> Seq<(usize, ChunkV)> {
        Seq::new(self.rev@.len(), |i: int| (self.rev@[self.rev@.len() - 1 - i].id, chunk_view(self.rev@[self.rev@.len() - 1 - i])))
    }

    /// Returns the next chunk, if any.
    pub fn next(&mut self) -> (r: Option<Chunk<'a>>)
        ensures
            old(self).remaining().len() == 0 ==> r is None && final(self).remaining() == old(self).remaining(),
            old(self).remaining().len() > 0 ==> (r matches Some(c) && (c.id, chunk_view(c)) == old(self).remaining()[0]
                && final(self).remaining() == old(self).remaining().drop_first()),
            old(self).no_extensions() ==> final(self).no_extensions() && (r matches Some(c) ==> c.extension.entries() == Map::<String, String>::empty()),
    {
        let r = self.rev.pop();
        if r.is_some() {
            assert(self.remaining() =~= old(self).remaining().drop_first());
        }
        r
    }
}

impl<'a> Chunk<'a> {
    /// Position of the chunk in the body.
    pub fn id(&self) -> (r: usize)
        ensures
            r == self.id,
    {
        self.id
    }

    /// How far the chunk has been read.
    pub fn state(&self) -> (r: &ChunkState)
        ensures
            *r == self.state,
    {
        &self.state
    }

    /// The chunk size.
    pub fn size(&self) -> (r: usize)
        ensures
            r == self.size,
    {
        self.size
    }

    /// The chunk extensions.
    pub fn extension(&self) -> (r: &ChunkExt)
        ensures
            r.entries() == self.extension.entries(),
    {
        &self.extension
    }

    /// The data found in this piece of input.
    pub fn data(&self) -> (r: &'a [u8])
        ensures
            r@ == self.data@,
    {
        self.data
    }

    /// The trailer bytes found in this piece of input.
    pub fn trailer(&self) -> (r: Option<&'a [u8]>)
        ensures
            opt_seq(r) == opt_seq(self.trailer),
    {
        self.trailer
    }
}

impl ChunkBodyDecoder {
    /// The trailer lines gathered so far, as header fields; `None` when no
    /// trailer byte was gathered.
    pub fn get_trailer(&self) -> (r: Result<Option<Headers>, HttpError>)
        ensures
            self.st().trailer.len() == 0 ==> r == Ok::<Option<Headers>, HttpError>(None),
            self.st().trailer.len() > 0 ==> match trailer_scan(self.st().trailer, self.st().trailer.len() as int) {
                Ok(st) => r matches Ok(Some(h)) && h.lines() == st.lines,
                Err(()) => r matches Err(e) && e.kind == ErrorKind::InvalidInput,
            },
    {
        let t = self.trailer.as_slice();
        if t.len() == 0 {
            return Ok(None);
        }
        let ghost n = t@.len() as int;
        let mut colon: usize = 0;
        let mut lf: usize = 0;
        let mut name: Vec<u8> = Vec::new();
        let mut headers = Headers::new();
        let mut i: usize = 0;
        while i < t.len()
            invariant
                i <= t@.len(),
                n == t@.len(),
                t@ == self.st().trailer,
                trailer_scan(t@, i as int) == Ok::<TrailerScan, ()>(
                    TrailerScan { colon: colon as int, lf: lf as int, name: name@, lines: headers.lines(), done: false },
                ),
                crate::headers::valid_name(name@),
                lf == 0 || lf < i,
                colon == 0 || colon < i,
            decreases t@.len() - i,
        {
            let ghost st = TrailerScan { colon: colon as int, lf: lf as int, name: name@, lines: headers.lines(), done: false };
            let b = t[i];
            if b == 0x3a && colon == 0 {
                let nm = if lf == 0 { &t[0..i] } else { &t[lf + 1..i] };
                if !crate::headers::check_name(nm) {
                    proof {
                        lemma_scan_err(t@, i + 1, n);
                    }
                    return Err(HttpError::from_kind(ErrorKind::InvalidInput));
                }
                colon = i;
                name = crate::bytes::copy_bytes(nm);
            } else if b == 0x0a {
                if i < 2 {
                    proof {
                        lemma_scan_err(t@, i + 1, n);
                    }
                    return Err(HttpError::from_kind(ErrorKind::InvalidInput));
                }
                if t[i - 2] == 0x0a {
                    proof {
                        lemma_scan_done(t@, i + 1, n, TrailerScan { done: true, ..st });
                    }
                    return Ok(Some(headers));
                }
                if colon + 1 > i - 1 {
                    proof {
                        lemma_scan_err(t@, i + 1, n);
                    }
                    return Err(HttpError::from_kind(ErrorKind::InvalidInput));
                }
                let value = trim_blanks(&t[colon + 1..i - 1]);
                match headers.insert(name.as_slice(), value) {
                    Err(e) => {
                        proof {
                            lemma_scan_err(t@, i + 1, n);
                        }
                        return Err(e);
                    },
                    Ok(()) => {},
                }
                lf = i;
                colon = 0;
            }
            i = i + 1;
        }
        Ok(Some(headers))
    }
}

impl ChunkBodyDecoder {
    fn merge_trailer(&mut self, chunk: &Chunk)
        requires
            chunk.trailer is Some,
        ensures
            final(self).st() == (CState { trailer: merged_trailer(old(self).st().trailer, chunk_view(*chunk)), ..old(self).st() }),
    {
        let more = match chunk.trailer {
            Some(t) => t,
            None => &[],
        };
        if chunk.state == ChunkState::Finish || chunk.state == ChunkState::DataCrlf {
            crate::bytes::push_bytes(&mut self.trailer, more);
            if self.trailer.len() != 0 {
                self.trailer.push(0x0d);
                self.trailer.push(0x0a);
                assert(self.trailer@ =~= old(self).trailer@ + more@ + seq![0x0du8, 0x0au8]);
            }
        } else {
            crate::bytes::push_bytes(&mut self.trailer, more);
        }
    }

    fn match_decode_result<'a>(&mut self, chunk: Chunk<'a>, results: &mut Chunks<'a>, remains: &[u8]) -> (stop: bool)
        ensures
            final(results).items() == old(results).items().push((chunk.id, chunk_view(chunk))),
            final(results).no_extensions() == (old(results).no_extensions() && chunk.extension.entries() == Map::<String, String>::empty()),
            final(self).st() == after_chunk(old(self).st(), chunk_view(chunk), remains@).0,
            stop == after_chunk(old(self).st(), chunk_view(chunk), remains@).1,
    {
        let complete = chunk.state == ChunkState::Finish;
        let state = chunk.state;
        results.push(chunk);
        if !complete {
            if self.is_chunk_trailer && (state == ChunkState::Data || state == ChunkState::DataCrlf) {
                self.chunk_num = if self.chunk_num < usize::MAX { self.chunk_num + 1 } else { 0 };
                remains.len() == 0
            } else {
                true
            }
        } else if self.is_last_chunk {
            self.is_last_chunk = false;
            self.chunk_num = 0;
            true
        } else {
            self.chunk_num = if self.chunk_num < usize::MAX { self.chunk_num + 1 } else { 0 };
            remains.len() == 0
        }
    }

    fn decode_step<'a>(&mut self, buf: &'a [u8]) -> (r: Result<(Chunk<'a>, &'a [u8]), HttpError>)
        ensures
            step_matches(decode_step(old(self).st(), buf@), r, final(self).st()),
    {
        reveal(decode_step);
        match self.stage {
            Stage::Size => self.decode_size(buf),
            Stage::Extension => self.skip_extension(buf),
            Stage::SizeEnd => self.skip_crlf(buf),
            Stage::Data => self.decode_data(buf),
            Stage::DataEnd => {
                assert(buf@.subrange(0, 0) =~= Seq::<u8>::empty());
                self.skip_last_crlf(&buf[0..0], buf)
            },
            Stage::TrailerCrlf => self.skip_trailer_crlf(buf),
            Stage::TrailerData => self.decode_trailer_data(buf),
            Stage::TrailerEndCrlf => {
                assert(buf@.subrange(0, 0) =~= Seq::<u8>::empty());
                self.skip_trailer_last_crlf(&buf[0..0], buf)
            },
        }
    }

    /// Decodes one chunk (or part of one) from `buf` and records it:
    /// whether decoding stops, and the input after the chunk.
    fn decode_one<'a>(&mut self, buf: &'a [u8], results: &mut Chunks<'a>) -> (r: Result<(bool, &'a [u8]), HttpError>)
        ensures
            match decode_step(old(self).st(), buf@) {
                Ok((s1, c, rest)) => {
                    let (s3, stop) = after_chunk(CState { trailer: merged_trailer(s1.trailer, c), ..s1 }, c, rest);
                    &&& r matches Ok((st, rm)) && st == stop && rm@ == rest
                    &&& final(self).st() == s3
                    &&& final(results).items() == old(results).items().push((s1.chunk_num, c))
                },
                Err(()) => r matches Err(e) && e.kind == ErrorKind::InvalidInput,
            },
            old(results).no_extensions() ==> final(results).no_extensions(),
    {
        let step = self.decode_step(buf);
        let (mut chunk, rest) = match step {
            Err(e) => {
                return Err(e);
            },
            Ok(p) => p,
        };
        let ghost s1 = self.st();
        let ghost c = chunk_view(chunk);
        chunk.id = self.chunk_num;
        if chunk.trailer.is_some() {
            self.merge_trailer(&chunk);
        }
        assert(self.st() =~= CState { trailer: merged_trailer(s1.trailer, c), ..s1 });
        let stop = self.match_decode_result(chunk, results, rest);
        Ok((stop, rest))
    }

    /// Decodes a piece of a chunked body: the chunks (or parts of chunks) it
    /// holds, each with its position, and the input left after the body
    /// ends.
    pub fn decode<'a>(&mut self, buf: &'a [u8]) -> (r: Result<(Chunks<'a>, &'a [u8]), HttpError>)
        ensures
            match decode_chunks(old(self).st(), buf@) {
                Ok((s, items, left)) => (r matches Ok((cs, rm)) && cs.items() == items && rm@ == left) && final(self).st() == s,
                Err(()) => r matches Err(e) && e.kind == ErrorKind::InvalidInput,
            },
            r matches Ok((cs, _)) ==> cs.no_extensions(),
    {
        let mut results = Chunks::new();
        let mut remains = buf;
        proof {
            lemma_prepend_nothing(decode_chunks(self.st(), buf@));
        }
        loop
            invariant
                decode_chunks(old(self).st(), buf@) == prepend_chunks(results.items(), decode_chunks(self.st(), remains@)),
                results.no_extensions(),
            decreases remains@.len(),
        {
            let ghost s0 = self.st();
            let ghost items0 = results.items();
            proof {
                lemma_decode_chunks_err(s0, remains@);
                match decode_step(s0, remains@) {
                    Ok((s1, c, rest)) => {
                        lemma_decode_chunks_next(s0, remains@, s1, c, rest, items0);
                    },
                    Err(()) => {},
                }
            }
            let (stop, rest) = match self.decode_one(remains, &mut results) {
                Err(e) => {
                    return Err(e);
                },
                Ok(p) => p,
            };
            if stop || rest.len() >= remains.len() {
                return Ok((results, rest));
            }
            remains = rest;
        }
    }
}

} // verus!
