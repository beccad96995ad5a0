//! HTTP/2 frame decoder: turns a byte stream, delivered in fragments of any
//! size, into frames.
use vstd::prelude::*;
use crate::bytes::{copy_bytes, push_bytes};
use crate::h2::error::{ErrorCode, H2Error, StreamId};
use crate::h2::frame::{
    frame_view, Data, Frame, FrameFlags, FrameV, Goaway, Headers as HeadersPayload, Payload, PayloadV, Ping,
    Priority, PushPromise, RstStream, Setting, Settings, WindowUpdate, ACK_MASK, END_HEADERS_MASK, END_STREAM_MASK,
    HEADERS_PRIORITY_MASK, PADDED_MASK,
};
use crate::h2::hpack::decoder::{run_reprs, DecView, HpackDecoder};
use crate::h2::parts::{empty_parts, Parts, PartsView};

verus! {

const FRAME_HEADER_LENGTH: usize = 9;

const DEFAULT_MAX_FRAME_SIZE: u32 = 16384;

const MAX_ALLOWED_MAX_FRAME_SIZE: u32 = 16777215;

const DEFAULT_HEADER_TABLE_SIZE: usize = 4096;

const DEFAULT_MAX_HEADER_LIST_SIZE: usize = 16777216;

const MAX_INITIAL_WINDOW_SIZE: u32 = 2147483647;

/// A connection error with the given code.
pub open spec fn conn(e: ErrorCode) -> H2Error {
    H2Error::ConnectionError(e)
}

/// The big-endian value of four octets.
pub open spec fn be32(a: u8, b: u8, c: u8, d: u8) -> int {
    a * 0x1000000 + b * 0x10000 + c * 0x100 + d
}

/// The 31-bit stream identifier in the four octets at `i` (the reserved bit
/// cleared).
pub open spec fn stream_id_at(p: Seq<u8>, i: int) -> StreamId {
    be32(p[i] & 0x7f, p[i + 1], p[i + 2], p[i + 3]) as u32
}

/// The 32-bit value in the four octets at `i`.
pub open spec fn u32_at(p: Seq<u8>, i: int) -> u32 {
    be32(p[i], p[i + 1], p[i + 2], p[i + 3]) as u32
}

/// The setting named by an identifier and value: `None` for an unknown
/// identifier, an error for a value out of the setting's range.
pub open spec fn setting_of(id: u16, value: u32) -> Result<Option<Setting>, H2Error> {
    if id == 1 {
        Ok(Some(Setting::HeaderTableSize(value)))
    } else if id == 2 {
        if value == 0 {
            Ok(Some(Setting::EnablePush(false)))
        } else if value == 1 {
            Ok(Some(Setting::EnablePush(true)))
        } else {
            Err(conn(ErrorCode::ProtocolError))
        }
    } else if id == 3 {
        Ok(Some(Setting::MaxConcurrentStreams(value)))
    } else if id == 4 {
        if value > 2147483647 {
            Err(conn(ErrorCode::FlowControlError))
        } else {
            Ok(Some(Setting::InitialWindowSize(value)))
        }
    } else if id == 5 {
        if value < 16384 || value > 16777215 {
            Err(conn(ErrorCode::ProtocolError))
        } else {
            Ok(Some(Setting::MaxFrameSize(value)))
        }
    } else if id == 6 {
        Ok(Some(Setting::MaxHeaderListSize(value)))
    } else {
        Ok(None)
    }
}

/// The setting in the six octets at `i`: a 16-bit identifier and a 32-bit
/// value.
pub open spec fn setting_at(p: Seq<u8>, i: int) -> Result<Option<Setting>, H2Error> {
    setting_of((p[i] * 0x100 + p[i + 1]) as u16, u32_at(p, i + 2))
}

/// The settings of the first `n` six-octet groups of `p`, unknown
/// identifiers skipped; the first invalid one is the error.
pub open spec fn settings_prefix(p: Seq<u8>, n: nat) -> Result<Seq<Setting>, H2Error>
    decreases n,
{
    if n == 0 {
        Ok(Seq::empty())
    } else {
        match settings_prefix(p, (n - 1) as nat) {
            Err(e) => Err(e),
            Ok(prev) => match setting_at(p, (n - 1) * 6) {
                Err(e) => Err(e),
                Ok(Some(s)) => Ok(prev.push(s)),
                Ok(None) => Ok(prev),
            },
        }
    }
}

/// Once a group is invalid, every longer prefix fails with the same error.
proof fn lemma_settings_error_stays(p: Seq<u8>, k: nat, m: nat)
    requires
        k <= m,
        settings_prefix(p, k) is Err,
    ensures
        settings_prefix(p, m) == settings_prefix(p, k),
    decreases m - k,
{
    if k < m {
        lemma_settings_error_stays(p, k, (m - 1) as nat);
    }
}

/// The 9-octet header of a frame.
#[derive(Clone, Copy, PartialEq, Eq, Structural, Debug)]
pub struct FrameHeader {
    /// Stream identifier.
    pub stream_id: StreamId,
    /// Flags octet.
    pub flags: u8,
    /// Frame type.
    pub frame_type: u8,
    /// Length of the payload.
    pub payload_length: usize,
}

/// The header of no frame.
pub open spec fn no_header() -> FrameHeader {
    FrameHeader { stream_id: 0, flags: 0, frame_type: 0, payload_length: 0 }
}

/// Whether all bits of `mask` are set in `flags`.
pub open spec fn has_flag(flags: u8, mask: u8) -> bool {
    mask & flags == mask
}

/// Parses a frame header; a payload longer than `max` is a FRAME_SIZE_ERROR.
pub open spec fn parse_header(hb: Seq<u8>, max: u32) -> Result<FrameHeader, H2Error> {
    let len = hb[0] * 0x10000 + hb[1] * 0x100 + hb[2];
    if len > max {
        Err(conn(ErrorCode::FrameSizeError))
    } else {
        Ok(FrameHeader { stream_id: stream_id_at(hb, 5), flags: hb[4], frame_type: hb[3], payload_length: len as usize })
    }
}

/// The state of a header block spread over a HEADERS or PUSH_PROMISE frame
/// and CONTINUATION frames: flags, end of stream, stream, whether the block
/// is complete, promised stream.
pub type ContV = (u8, bool, StreamId, bool, StreamId);

/// The state of no open header block.
pub open spec fn no_cont() -> ContV {
    (0, false, 0, true, 0)
}

/// The abstract state of a frame decoder.
#[verifier::ext_equal]
pub struct DState {
    /// Whether a frame header has been read and its payload is awaited.
    pub payload_stage: bool,
    /// Octets of the current header or payload received so far.
    pub buf: Seq<u8>,
    /// The header of the current frame.
    pub header: FrameHeader,
    /// The open header block, if any.
    pub cont: ContV,
    /// The HPACK decoder state.
    pub hpack: DecView,
    /// Octets of a header field representation cut off at a fragment end.
    pub hpending: Seq<u8>,
    /// The largest payload accepted.
    pub max_frame_size: u32,
}

/// The abstract value of a decoded item: a frame, or a note that a header
/// block continues.
pub enum KindV {
    /// A complete frame.
    Complete(FrameV),
    /// A HEADERS or PUSH_PROMISE frame whose header block continues.
    Partial,
}

/// Decodes a header block fragment.
pub open spec fn hp_decode(s: DState, frag: Seq<u8>) -> Result<DState, H2Error> {
    let all = s.hpending + frag;
    match run_reprs(s.hpack, all, 0) {
        Ok((st, pos)) => Ok(DState { hpack: st, hpending: all.subrange(pos, all.len() as int), ..s }),
        Err(e) => Err(e),
    }
}

/// Ends a header block: the decoded block, or a compression error when a
/// representation is cut off.
pub open spec fn hp_finish(s: DState) -> Result<(DState, PartsView), H2Error> {
    if s.hpending.len() > 0 {
        Err(conn(ErrorCode::CompressionError))
    } else {
        Ok((DState { hpack: (s.hpack.0, s.hpack.1, empty_parts(), 0nat, s.hpack.4), ..s }, s.hpack.2))
    }
}

/// A complete frame of the current header with the given payload.
pub open spec fn complete(s: DState, p: PayloadV) -> Result<(DState, KindV), H2Error> {
    Ok((s, KindV::Complete((s.header.stream_id, s.header.flags, p))))
}

/// The padding length octet, zero where there is none.
pub open spec fn pad_of(p: Seq<u8>) -> nat {
    if p.len() > 0 {
        p[0] as nat
    } else {
        0
    }
}

/// Decodes a PING payload.
pub open spec fn ping_step(s: DState, p: Seq<u8>) -> Result<(DState, KindV), H2Error> {
    if s.header.stream_id != 0 {
        Err(conn(ErrorCode::ProtocolError))
    } else if s.header.payload_length != 8 || p.len() != 8 {
        Err(conn(ErrorCode::FrameSizeError))
    } else {
        complete(s, PayloadV::Ping(p))
    }
}

/// Decodes a PRIORITY payload: five octets, on a stream other than 0.
pub open spec fn priority_step(s: DState, p: Seq<u8>) -> Result<(DState, KindV), H2Error> {
    if s.header.stream_id == 0 {
        Err(conn(ErrorCode::ProtocolError))
    } else if s.header.payload_length != 5 || p.len() != 5 {
        Err(H2Error::StreamError(s.header.stream_id, ErrorCode::FrameSizeError))
    } else {
        complete(s, PayloadV::Priority(p[0] & 0x80 == 0x80, stream_id_at(p, 0), p[4]))
    }
}

/// Decodes a GOAWAY payload.
pub open spec fn goaway_step(s: DState, p: Seq<u8>) -> Result<(DState, KindV), H2Error> {
    if s.header.stream_id != 0 {
        Err(conn(ErrorCode::ProtocolError))
    } else if s.header.payload_length < 8 || p.len() < 8 {
        Err(conn(ErrorCode::FrameSizeError))
    } else {
        complete(s, PayloadV::Goaway(u32_at(p, 4), stream_id_at(p, 0), p.subrange(8, p.len() as int)))
    }
}

/// Decodes a WINDOW_UPDATE payload.
pub open spec fn window_update_step(s: DState, p: Seq<u8>) -> Result<(DState, KindV), H2Error> {
    if s.header.payload_length != 4 || p.len() != 4 {
        Err(conn(ErrorCode::FrameSizeError))
    } else if stream_id_at(p, 0) == 0 {
        Err(H2Error::StreamError(s.header.stream_id, ErrorCode::ProtocolError))
    } else {
        complete(s, PayloadV::WindowUpdate(stream_id_at(p, 0)))
    }
}

/// Decodes a RST_STREAM payload.
pub open spec fn reset_step(s: DState, p: Seq<u8>) -> Result<(DState, KindV), H2Error> {
    if s.header.stream_id == 0 {
        Err(conn(ErrorCode::ProtocolError))
    } else if s.header.payload_length != 4 || p.len() != 4 {
        Err(conn(ErrorCode::FrameSizeError))
    } else {
        complete(s, PayloadV::RstStream(u32_at(p, 0)))
    }
}

/// Decodes a SETTINGS payload.
pub open spec fn settings_step(s: DState, p: Seq<u8>) -> Result<(DState, KindV), H2Error> {
    if s.header.stream_id != 0 {
        Err(conn(ErrorCode::ProtocolError))
    } else if s.header.payload_length % 6 != 0 {
        Err(conn(ErrorCode::FrameSizeError))
    } else if has_flag(s.header.flags, ACK_MASK) {
        if s.header.payload_length != 0 || p.len() != 0 {
            Err(conn(ErrorCode::FrameSizeError))
        } else {
            complete(s, PayloadV::Settings(Seq::empty()))
        }
    } else if p.len() % 6 != 0 {
        Err(conn(ErrorCode::FrameSizeError))
    } else {
        match settings_prefix(p, p.len() / 6) {
            Ok(list) => complete(s, PayloadV::Settings(list)),
            Err(e) => Err(e),
        }
    }
}

/// Decodes a DATA payload, removing its padding.
pub open spec fn data_step(s: DState, p: Seq<u8>) -> Result<(DState, KindV), H2Error> {
    let len = s.header.payload_length;
    if s.header.stream_id == 0 {
        Err(conn(ErrorCode::ProtocolError))
    } else if len == 0 {
        complete(s, PayloadV::Data(Seq::empty()))
    } else if has_flag(s.header.flags, PADDED_MASK) {
        if len <= p[0] {
            Err(conn(ErrorCode::ProtocolError))
        } else {
            complete(s, PayloadV::Data(p.subrange(1, len - p[0])))
        }
    } else {
        complete(s, PayloadV::Data(p.subrange(0, len as int)))
    }
}

/// Decodes a HEADERS payload: its header block fragment, without padding
/// and priority fields, goes to the HPACK decoder; without END_HEADERS the
/// block stays open for CONTINUATION frames.
pub open spec fn headers_step(s: DState, p: Seq<u8>) -> Result<(DState, KindV), H2Error> {
    let h = s.header;
    let len = h.payload_length as int;
    let padded = has_flag(h.flags, PADDED_MASK);
    let start: int = (if padded { 1int } else { 0int }) + (if has_flag(h.flags, HEADERS_PRIORITY_MASK) { 5int } else { 0int });
    let end: int = if padded { len - pad_of(p) } else { len };
    if h.stream_id == 0 {
        Err(conn(ErrorCode::ProtocolError))
    } else if padded && len <= pad_of(p) {
        Err(conn(ErrorCode::ProtocolError))
    } else if start > end {
        Err(conn(ErrorCode::ProtocolError))
    } else if has_flag(h.flags, END_HEADERS_MASK) {
        match hp_decode(s, p.subrange(start, end)) {
            Err(e) => Err(e),
            Ok(s2) => match hp_finish(s2) {
                Err(e) => Err(e),
                Ok((s3, parts)) => complete(s3, PayloadV::Headers(parts)),
            },
        }
    } else {
        let s2 = DState { cont: (h.flags, has_flag(h.flags, END_STREAM_MASK), h.stream_id, false, s.cont.4), ..s };
        match hp_decode(s2, p.subrange(start, end)) {
            Err(e) => Err(e),
            Ok(s3) => Ok((s3, KindV::Partial)),
        }
    }
}

/// Decodes a PUSH_PROMISE payload; the whole payload goes to the HPACK
/// decoder.
pub open spec fn push_promise_step(s: DState, p: Seq<u8>) -> Result<(DState, KindV), H2Error> {
    let h = s.header;
    let len = h.payload_length as int;
    let padded = has_flag(h.flags, PADDED_MASK);
    let start: int = if padded { 5int } else { 4int };
    let end: int = if padded { len - pad_of(p) } else { len };
    if h.stream_id == 0 {
        Err(conn(ErrorCode::ProtocolError))
    } else if padded && len <= pad_of(p) {
        Err(conn(ErrorCode::ProtocolError))
    } else if start > end {
        Err(conn(ErrorCode::ProtocolError))
    } else {
        match hp_decode(s, p) {
            Err(e) => Err(e),
            Ok(s2) => {
                let promised = if padded { stream_id_at(p, 1) } else { stream_id_at(p, 0) };
                if promised == 0 {
                    Err(conn(ErrorCode::ProtocolError))
                } else if has_flag(h.flags, END_HEADERS_MASK) {
                    match hp_finish(s2) {
                        Err(e) => Err(e),
                        Ok((s3, parts)) => complete(s3, PayloadV::PushPromise(promised, parts)),
                    }
                } else {
                    Ok((DState { cont: (h.flags, s2.cont.1, h.stream_id, false, promised), ..s2 }, KindV::Partial))
                }
            },
        }
    }
}

/// Decodes a CONTINUATION payload; with END_HEADERS the open header block
/// is complete and becomes a HEADERS or PUSH_PROMISE frame of the stream
/// and flags that opened it.
pub open spec fn continuation_step(s: DState, p: Seq<u8>) -> Result<(DState, KindV), H2Error> {
    if s.header.stream_id == 0 {
        Err(conn(ErrorCode::ProtocolError))
    } else {
        match hp_decode(s, p) {
            Err(e) => Err(e),
            Ok(s2) => if has_flag(s.header.flags, END_HEADERS_MASK) {
                match hp_finish(s2) {
                    Err(e) => Err(e),
                    Ok((s3, parts)) => {
                        let c = s3.cont;
                        let pv = if c.4 != 0 { PayloadV::PushPromise(c.4, parts) } else { PayloadV::Headers(parts) };
                        Ok((DState { cont: no_cont(), ..s3 }, KindV::Complete((c.2, c.0, pv))))
                    },
                }
            } else {
                Ok((s2, KindV::Partial))
            },
        }
    }
}

/// Decodes a whole payload `p` by the current frame type.
#[verifier::opaque]
pub open spec fn payload_step(s: DState, p: Seq<u8>) -> Result<(DState, KindV), H2Error> {
    let t = s.header.frame_type;
    if t == 0 {
        data_step(s, p)
    } else if t == 1 {
        headers_step(s, p)
    } else if t == 2 {
        priority_step(s, p)
    } else if t == 3 {
        reset_step(s, p)
    } else if t == 4 {
        settings_step(s, p)
    } else if t == 5 {
        push_promise_step(s, p)
    } else if t == 6 {
        ping_step(s, p)
    } else if t == 7 {
        goaway_step(s, p)
    } else if t == 8 {
        window_update_step(s, p)
    } else if t == 9 {
        continuation_step(s, p)
    } else {
        Err(conn(ErrorCode::ProtocolError))
    }
}

/// Whether the current frame breaks an open header block: only
/// CONTINUATION frames of its stream may follow it.
pub open spec fn breaks_block(s: DState) -> bool {
    !s.cont.3 && (s.header.stream_id != s.cont.2 || s.header.frame_type != 9)
}

/// The state after a frame: waiting for the next header.
pub open spec fn after_frame(s: DState) -> DState {
    DState { payload_stage: false, buf: Seq::empty(), header: no_header(), ..s }
}

/// Decodes `input`: the final state and the items decoded, in order.
pub open spec fn decode_steps(s: DState, input: Seq<u8>) -> Result<(DState, Seq<KindV>), H2Error>
    decreases input.len(), (if s.payload_stage { 1int } else { 0int }),
{
    if !s.payload_stage {
        if s.buf.len() >= 9 || input.len() < 9 - s.buf.len() {
            Ok((DState { buf: s.buf + input, ..s }, Seq::empty()))
        } else {
            let need = 9 - s.buf.len();
            match parse_header(s.buf + input.subrange(0, need), s.max_frame_size) {
                Err(e) => Err(e),
                Ok(h) => decode_steps(
                    DState { payload_stage: true, buf: Seq::empty(), header: h, ..s },
                    input.subrange(need, input.len() as int),
                ),
            }
        }
    } else if breaks_block(s) {
        Err(conn(ErrorCode::ProtocolError))
    } else if input.len() + s.buf.len() < s.header.payload_length {
        Ok((DState { buf: s.buf + input, ..s }, Seq::empty()))
    } else {
        let need: int = if s.buf.len() <= s.header.payload_length { s.header.payload_length - s.buf.len() } else { 0 };
        match payload_step(s, s.buf + input.subrange(0, need)) {
            Err(e) => Err(e),
            Ok((s2, k)) => match decode_steps(after_frame(s2), input.subrange(need, input.len() as int)) {
                Err(e) => Err(e),
                Ok((s3, ks)) => Ok((s3, seq![k] + ks)),
            },
        }
    }
}

/// Prepends decoded items to the outcome of decoding the rest.
pub open spec fn prepend(ks: Seq<KindV>, r: Result<(DState, Seq<KindV>), H2Error>) -> Result<(DState, Seq<KindV>), H2Error> {
    match r {
        Ok((s, rest)) => Ok((s, ks + rest)),
        Err(e) => Err(e),
    }
}

/// The stream identifier in the four octets of `token` at `i`.
fn get_stream_id(token: &[u8], i: usize) -> (r: StreamId)
    requires
        i + 4 <= token@.len(),
    ensures
        r == stream_id_at(token@, i as int),
{
    let a: u8 = token[i] & 0x7f;
    (a as u32) * 0x1000000 + (token[i + 1] as u32) * 0x10000 + (token[i + 2] as u32) * 0x100 + (token[i + 3] as u32)
}

/// The 32-bit value in the four octets of `token` at `i`.
fn get_code_value(token: &[u8], i: usize) -> (r: u32)
    requires
        i + 4 <= token@.len(),
    ensures
        r == u32_at(token@, i as int),
{
    (token[i] as u32) * 0x1000000 + (token[i + 1] as u32) * 0x10000 + (token[i + 2] as u32) * 0x100 + (token[i + 3] as u32)
}

/// The setting in the six octets of `token` at `i`.
fn split_token_to_setting(token: &[u8], i: usize) -> (r: Result<Option<Setting>, H2Error>)
    requires
        i + 6 <= token@.len(),
    ensures
        r == setting_at(token@, i as int),
{
    let id: u16 = (token[i] as u16) * 0x100 + (token[i + 1] as u16);
    let value = get_code_value(token, i + 2);
    get_setting(id, value)
}

/// The setting named by an identifier and a value: `None` for an unknown
/// identifier; an ENABLE_PUSH other than 0 or 1, or a SETTINGS_MAX_FRAME_SIZE
/// outside 16384 to 16777215, is a PROTOCOL_ERROR; an initial window size
/// above 2^31 - 1 is a FLOW_CONTROL_ERROR.
pub fn get_setting(id: u16, value: u32) -> (r: Result<Option<Setting>, H2Error>)
    ensures
        r == setting_of(id, value),
{
    if id == 1 {
        Ok(Some(Setting::HeaderTableSize(value)))
    } else if id == 2 {
        if value == 0 {
            Ok(Some(Setting::EnablePush(false)))
        } else if value == 1 {
            Ok(Some(Setting::EnablePush(true)))
        } else {
            Err(H2Error::ConnectionError(ErrorCode::ProtocolError))
        }
    } else if id == 3 {
        Ok(Some(Setting::MaxConcurrentStreams(value)))
    } else if id == 4 {
        if value > MAX_INITIAL_WINDOW_SIZE {
            Err(H2Error::ConnectionError(ErrorCode::FlowControlError))
        } else {
            Ok(Some(Setting::InitialWindowSize(value)))
        }
    } else if id == 5 {
        if value < DEFAULT_MAX_FRAME_SIZE || value > MAX_ALLOWED_MAX_FRAME_SIZE {
            Err(H2Error::ConnectionError(ErrorCode::ProtocolError))
        } else {
            Ok(Some(Setting::MaxFrameSize(value)))
        }
    } else if id == 6 {
        Ok(Some(Setting::MaxHeaderListSize(value)))
    } else {
        Ok(None)
    }
}

impl FrameHeader {
    fn new() -> (r: FrameHeader)
        ensures
            r == no_header(),
    {
        FrameHeader { stream_id: 0, flags: 0, frame_type: 0, payload_length: 0 }
    }

    fn is_end_stream(&self) -> (r: bool)
        ensures
            r == has_flag(self.flags, END_STREAM_MASK),
    {
        END_STREAM_MASK & self.flags == END_STREAM_MASK
    }

    fn is_padded(&self) -> (r: bool)
        ensures
            r == has_flag(self.flags, PADDED_MASK),
    {
        PADDED_MASK & self.flags == PADDED_MASK
    }

    fn is_end_headers(&self) -> (r: bool)
        ensures
            r == has_flag(self.flags, END_HEADERS_MASK),
    {
        END_HEADERS_MASK & self.flags == END_HEADERS_MASK
    }

    fn is_headers_priority(&self) -> (r: bool)
        ensures
            r == has_flag(self.flags, HEADERS_PRIORITY_MASK),
    {
        HEADERS_PRIORITY_MASK & self.flags == HEADERS_PRIORITY_MASK
    }

    fn is_ack(&self) -> (r: bool)
        ensures
            r == has_flag(self.flags, ACK_MASK),
    {
        ACK_MASK & self.flags == ACK_MASK
    }
}

/// The state of an open header block.
#[derive(Clone, Copy)]
struct Continuations {
    flags: u8,
    is_end_stream: bool,
    stream_id: StreamId,
    is_end_headers: bool,
    promised_stream_id: StreamId,
}

impl Continuations {
    spec fn view_c(&self) -> ContV {
        (self.flags, self.is_end_stream, self.stream_id, self.is_end_headers, self.promised_stream_id)
    }

    fn new() -> (r: Continuations)
        ensures
            r.view_c() == no_cont(),
    {
        Continuations { flags: 0, is_end_stream: false, stream_id: 0, is_end_headers: true, promised_stream_id: 0 }
    }

    fn reset(&mut self)
        ensures
            final(self).view_c() == no_cont(),
    {
        self.flags = 0;
        self.is_end_stream = false;
        self.is_end_headers = true;
        self.stream_id = 0;
        self.promised_stream_id = 0;
    }
}

/// The HPACK decoder of a frame decoder.
pub struct HpackDecoderLayer {
    hpack: HpackDecoder,
}

impl HpackDecoderLayer {
    /// The HPACK decoder state.
    pub closed spec fn state(&self) -> DecView {
        self.hpack.state()
    }

    /// Octets of a representation cut off at a fragment end.
    pub closed spec fn pending(&self) -> Seq<u8> {
        self.hpack.pending()
    }

    /// The dynamic table is well formed.
    pub closed spec fn wf(&self) -> bool {
        self.hpack.wf()
    }

    fn new() -> (r: HpackDecoderLayer)
        ensures
            r.wf(),
            r.state() == (Seq::<(crate::h2::hpack::table::HName, Seq<u8>)>::empty(), 4096nat, empty_parts(), 0nat, 16777216nat),
            r.pending() == Seq::<u8>::empty(),
    {
        HpackDecoderLayer { hpack: HpackDecoder::with_max_size(DEFAULT_HEADER_TABLE_SIZE, DEFAULT_MAX_HEADER_LIST_SIZE) }
    }

    fn hpack_decode(&mut self, buf: &[u8]) -> (r: Result<(), H2Error>)
        requires
            old(self).wf(),
        ensures
            final(self).wf(),
            match run_reprs(old(self).state(), old(self).pending() + buf@, 0) {
                Ok((st, p)) => r is Ok && final(self).state() == st
                    && final(self).pending() == (old(self).pending() + buf@).subrange(p, (old(self).pending() + buf@).len() as int),
                Err(e) => r == Err::<(), H2Error>(e),
            },
    {
        self.hpack.decode(buf)
    }

    fn hpack_finish(&mut self) -> (r: Result<Parts, H2Error>)
        requires
            old(self).wf(),
        ensures
            final(self).wf(),
            old(self).pending().len() > 0 ==> r == Err::<Parts, H2Error>(conn(ErrorCode::CompressionError))
                && final(self).state() == old(self).state() && final(self).pending() == old(self).pending(),
            old(self).pending().len() == 0 ==> (r matches Ok(p) && p.view_parts() == old(self).state().2
                && final(self).state() == (old(self).state().0, old(self).state().1, empty_parts(), 0nat, old(self).state().4)
                && final(self).pending() == old(self).pending()),
    {
        self.hpack.finish()
    }

    /// Sets the header list size limit (SETTINGS_MAX_HEADER_LIST_SIZE).
    pub fn set_max_header_list_size(&mut self, size: usize)
        ensures
            final(self).wf() == old(self).wf(),
            final(self).state() == (old(self).state().0, old(self).state().1, old(self).state().2, old(self).state().3, size as nat),
            final(self).pending() == old(self).pending(),
    {
        self.hpack.update_header_list_size(size)
    }
}

/// A decoded item: a frame, or a note that a header block continues in
/// CONTINUATION frames.
pub enum FrameKind {
    /// PUSH_PROMISE or HEADERS frame parsing completed.
    Complete(Frame),
    /// Partial decoded of PUSH_PROMISE or HEADERS frame.
    Partial,
}

/// The abstract value of a decoded item.
pub open spec fn kind_view(k: FrameKind) -> KindV {
    match k {
        FrameKind::Complete(f) => KindV::Complete(frame_view(f)),
        FrameKind::Partial => KindV::Partial,
    }
}

/// The items decoded by one call, in order.
pub struct Frames {
    list: Vec<FrameKind>,
}

/// A borrowing cursor over `Frames`.
pub struct FramesIter<'a> {
    list: &'a [FrameKind],
    pos: usize,
}

/// A consuming cursor over `Frames`.
pub struct FramesIntoIter {
    rev: Vec<FrameKind>,
}

impl Frames {
    /// The items, in order.
    pub closed spec fn items(&self) -> Seq<KindV> {
        Seq::new(self.list@.len(), |i: int| kind_view(self.list@[i]))
    }

    fn new() -> (r: Frames)
        ensures
            r.items() == Seq::<KindV>::empty(),
    {
        let r = Frames { list: Vec::new() };
        assert(r.items() =~= Seq::<KindV>::empty());
        r
    }

    fn push(&mut self, frame: FrameKind)
        ensures
            final(self).items() == old(self).items().push(kind_view(frame)),
    {
        self.list.push(frame);
        assert(self.items() =~= old(self).items().push(kind_view(frame)));
    }

    /// Returns a cursor over the items.
    pub fn iter(&self) -> (r: FramesIter<'_>)
        ensures
            r.wf(),
            r.remaining() == self.items(),
    {
        let r = FramesIter { list: self.list.as_slice(), pos: 0 };
        assert(r.remaining() =~= self.items());
        r
    }

    /// Returns a consuming cursor over the items.
    pub fn into_iter(self) -> (r: FramesIntoIter)
        ensures
            r.remaining() == self.items(),
    {
        let ghost items = self.items();
        let mut list = self.list;
        let mut rev: Vec<FrameKind> = Vec::new();
        while list.len() > 0
            invariant
                list@.len() + rev@.len() == items.len(),
                forall|i: int| 0 <= i < list@.len() ==> kind_view(#[trigger] list@[i]) == items[i],
                forall|i: int| 0 <= i < rev@.len() ==> kind_view(#[trigger] rev@[i]) == items[items.len() - 1 - i],
            decreases list@.len(),
        {
            let k = list.pop().unwrap();
            rev.push(k);
        }
        let r = FramesIntoIter { rev };
        assert(r.remaining() =~= items);
        r
    }

    /// Returns the number of items.
    pub fn len(&self) -> (r: usize)
        ensures
            r == self.items().len(),
    {
        self.list.len()
    }

    /// Checks whether there are no items.
    pub fn is_empty(&self) -> (r: bool)
        ensures
            r == (self.items().len() == 0),
    {
        self.len() == 0
    }
}

impl<'a> FramesIter<'a> {
    /// The cursor lies within the items.
    pub closed spec fn wf(&self) -> bool {
        self.pos <= self.list@.len()
    }

    /// The items not yet returned.
    pub closed spec fn remaining(&self) -> Seq<KindV> {
        Seq::new((self.list@.len() - self.pos) as nat, |i: int| kind_view(self.list@[self.pos + i]))
    }

    /// Returns the next item, if any.
    pub fn next(&mut self) -> (r: Option<&'a FrameKind>)
        requires
            old(self).wf(),
        ensures
            final(self).wf(),
            old(self).remaining().len() == 0 ==> r is None && final(self).remaining() == old(self).remaining(),
            old(self).remaining().len() > 0 ==> (r matches Some(k) && kind_view(*k) == old(self).remaining()[0]
                && final(self).remaining() == old(self).remaining().drop_first()),
    {
        if self.pos < self.list.len() {
            let k = &self.list[self.pos];
            self.pos = self.pos + 1;
            assert(self.remaining() =~= old(self).remaining().drop_first());
            Some(k)
        } else {
            None
        }
    }
}

impl FramesIntoIter {
    /// The items not yet returned.
    pub closed spec fn remaining(&self) -> Seq<KindV> {
        Seq::new(self.rev@.len(), |i: int| kind_view(self.rev@[self.rev@.len() - 1 - i]))
    }

    /// Returns the next item, if any.
    pub fn next(&mut self) -> (r: Option<FrameKind>)
        ensures
            old(self).remaining().len() == 0 ==> r is None && final(self).remaining() == old(self).remaining(),
            old(self).remaining().len() > 0 ==> (r matches Some(k) && kind_view(k) == old(self).remaining()[0]
                && final(self).remaining() == old(self).remaining().drop_first()),
    {
        let r = self.rev.pop();
        if r.is_some() {
            assert(self.remaining() =~= old(self).remaining().drop_first());
        }
        r
    }
}

enum Stage {
    Header,
    Payload,
}

impl Default for FrameDecoder {
    fn default() -> (r: FrameDecoder)
        ensures
            r.wf(),
            r.state() == initial_state(),
    {
        FrameDecoder::new()
    }
}

/// Decoder of a byte stream into HTTP/2 frames; the stream may arrive in
/// fragments of any size.
pub struct FrameDecoder {
    buffer: Vec<u8>,
    max_frame_size: u32,
    stage: Stage,
    /// The header of the frame being decoded.
    pub header: FrameHeader,
    hpack: HpackDecoderLayer,
    continuations: Continuations,
}

/// The state of a new decoder.
pub open spec fn initial_state() -> DState {
    DState {
        payload_stage: false,
        buf: Seq::empty(),
        header: no_header(),
        cont: no_cont(),
        hpack: (Seq::empty(), 4096nat, empty_parts(), 0nat, 16777216nat),
        hpending: Seq::empty(),
        max_frame_size: 16384,
    }
}

impl FrameDecoder {
    /// The abstract state.
    pub closed spec fn state(&self) -> DState {
        DState {
            payload_stage: self.stage is Payload,
            buf: self.buffer@,
            header: self.header,
            cont: self.continuations.view_c(),
            hpack: self.hpack.state(),
            hpending: self.hpack.pending(),
            max_frame_size: self.max_frame_size,
        }
    }

    /// The buffered octets fit the current stage and the HPACK table is well
    /// formed.
    pub closed spec fn wf(&self) -> bool {
        &&& self.hpack.wf()
        &&& self.stage is Header ==> self.buffer@.len() < 9
        &&& self.stage is Payload ==> self.buffer@.len() <= self.header.payload_length
    }

    /// Creates a decoder: maximum frame size 16384, HPACK table size 4096,
    /// header list size limit 16 MiB.
    pub fn new() -> (r: FrameDecoder)
        ensures
            r.wf(),
            r.state() == initial_state(),
    {
        FrameDecoder {
            buffer: Vec::new(),
            max_frame_size: DEFAULT_MAX_FRAME_SIZE,
            stage: Stage::Header,
            header: FrameHeader::new(),
            hpack: HpackDecoderLayer::new(),
            continuations: Continuations::new(),
        }
    }

    /// Updates SETTINGS_MAX_FRAME_SIZE; a size outside 16384 to 16777215 is a
    /// PROTOCOL_ERROR.
    pub fn set_max_frame_size(&mut self, size: u32) -> (r: Result<(), H2Error>)
        requires
            old(self).wf(),
        ensures
            final(self).wf(),
            16384 <= size <= 16777215 ==> r is Ok && final(self).state() == (DState { max_frame_size: size, ..old(self).state() }),
            !(16384 <= size <= 16777215) ==> r == Err::<(), H2Error>(conn(ErrorCode::ProtocolError))
                && final(self).state() == old(self).state(),
    {
        if size < DEFAULT_MAX_FRAME_SIZE || size > MAX_ALLOWED_MAX_FRAME_SIZE {
            return Err(H2Error::ConnectionError(ErrorCode::ProtocolError));
        }
        self.max_frame_size = size;
        Ok(())
    }

    /// Updates SETTINGS_MAX_HEADER_LIST_SIZE.
    pub fn set_max_header_list_size(&mut self, size: usize)
        requires
            old(self).wf(),
        ensures
            final(self).wf(),
            final(self).state() == (DState {
                hpack: (old(self).state().hpack.0, old(self).state().hpack.1, old(self).state().hpack.2, old(self).state().hpack.3, size as nat),
                ..old(self).state()
            }),
    {
        self.hpack.set_max_header_list_size(size)
    }

    fn payload_bytes(&self, buf: &[u8]) -> (r: Vec<u8>)
        ensures
            r@ == self.buffer@ + buf@,
    {
        let mut full = copy_bytes(self.buffer.as_slice());
        push_bytes(&mut full, buf);
        full
    }

    fn complete_frame(&self, payload: Payload) -> (r: FrameKind)
        ensures
            kind_view(r) == KindV::Complete((self.header.stream_id, self.header.flags, crate::h2::frame::payload_view(payload))),
    {
        FrameKind::Complete(Frame::new(self.header.stream_id, FrameFlags::new(self.header.flags), payload))
    }

    fn hp_decode(&mut self, frag: &[u8]) -> (r: Result<(), H2Error>)
        requires
            old(self).wf(),
        ensures
            final(self).wf(),
            final(self).buffer@ == old(self).buffer@,
            final(self).stage == old(self).stage,
            final(self).header == old(self).header,
            match hp_decode(old(self).state(), frag@) {
                Ok(s) => r is Ok && final(self).state() == s,
                Err(e) => r == Err::<(), H2Error>(e),
            },
    {
        self.hpack.hpack_decode(frag)
    }

    fn hp_finish(&mut self) -> (r: Result<Parts, H2Error>)
        requires
            old(self).wf(),
        ensures
            final(self).wf(),
            final(self).buffer@ == old(self).buffer@,
            final(self).stage == old(self).stage,
            final(self).header == old(self).header,
            match hp_finish(old(self).state()) {
                Ok((s, pv)) => r matches Ok(p) && p.view_parts() == pv && final(self).state() == s,
                Err(e) => r matches Err(e2) && e2 == e,
            },
    {
        self.hpack.hpack_finish()
    }

    /// Decodes a PING payload: on stream 0, exactly 8 octets.
    pub fn decode_ping_payload(&mut self, buf: &[u8]) -> (r: Result<FrameKind, H2Error>)
        requires
            old(self).wf(),
        ensures
            final(self).wf(),
            match ping_step(old(self).state(), old(self).state().buf + buf@) {
                Ok((s, k)) => (r matches Ok(fk) && kind_view(fk) == k) && final(self).state() == s,
                Err(e) => r matches Err(e2) && e2 == e,
            },
    {
        if self.header.stream_id != 0 {
            return Err(H2Error::ConnectionError(ErrorCode::ProtocolError));
        }
        let full = self.payload_bytes(buf);
        if self.header.payload_length != 8 || full.len() != 8 {
            return Err(H2Error::ConnectionError(ErrorCode::FrameSizeError));
        }
        let data: [u8; 8] = [full[0], full[1], full[2], full[3], full[4], full[5], full[6], full[7]];
        assert(data@ =~= full@);
        Ok(self.complete_frame(Payload::Ping(Ping::new(data))))
    }

    /// Decodes a PRIORITY payload: not on stream 0, exactly 5 octets.
    pub fn decode_priority_payload(&mut self, buf: &[u8]) -> (r: Result<FrameKind, H2Error>)
        requires
            old(self).wf(),
        ensures
            final(self).wf(),
            match priority_step(old(self).state(), old(self).state().buf + buf@) {
                Ok((s, k)) => (r matches Ok(fk) && kind_view(fk) == k) && final(self).state() == s,
                Err(e) => r matches Err(e2) && e2 == e,
            },
    {
        if self.header.stream_id == 0 {
            return Err(H2Error::ConnectionError(ErrorCode::ProtocolError));
        }
        let full = self.payload_bytes(buf);
        if self.header.payload_length != 5 || full.len() != 5 {
            return Err(H2Error::StreamError(self.header.stream_id, ErrorCode::FrameSizeError));
        }
        let exclusive = full[0] & 0x80 == 0x80;
        let stream_dependency = get_stream_id(full.as_slice(), 0);
        let weight = full[4];
        Ok(self.complete_frame(Payload::Priority(Priority::new(exclusive, stream_dependency, weight))))
    }

    /// Decodes a GOAWAY payload: on stream 0, at least 8 octets.
    pub fn decode_goaway_payload(&mut self, buf: &[u8]) -> (r: Result<FrameKind, H2Error>)
        requires
            old(self).wf(),
        ensures
            final(self).wf(),
            match goaway_step(old(self).state(), old(self).state().buf + buf@) {
                Ok((s, k)) => (r matches Ok(fk) && kind_view(fk) == k) && final(self).state() == s,
                Err(e) => r matches Err(e2) && e2 == e,
            },
    {
        if self.header.stream_id != 0 {
            return Err(H2Error::ConnectionError(ErrorCode::ProtocolError));
        }
        let full = self.payload_bytes(buf);
        if self.header.payload_length < 8 || full.len() < 8 {
            return Err(H2Error::ConnectionError(ErrorCode::FrameSizeError));
        }
        let last_stream_id = get_stream_id(full.as_slice(), 0);
        let error_code = get_code_value(full.as_slice(), 4);
        let debug_data = copy_bytes(&full.as_slice()[8..full.len()]);
        Ok(self.complete_frame(Payload::Goaway(Goaway::new(error_code, last_stream_id, debug_data))))
    }

    /// Decodes a WINDOW_UPDATE payload: exactly 4 octets, a nonzero increment.
    pub fn decode_window_update_payload(&mut self, buf: &[u8]) -> (r: Result<FrameKind, H2Error>)
        requires
            old(self).wf(),
        ensures
            final(self).wf(),
            match window_update_step(old(self).state(), old(self).state().buf + buf@) {
                Ok((s, k)) => (r matches Ok(fk) && kind_view(fk) == k) && final(self).state() == s,
                Err(e) => r matches Err(e2) && e2 == e,
            },
    {
        let full = self.payload_bytes(buf);
        if self.header.payload_length != 4 || full.len() != 4 {
            return Err(H2Error::ConnectionError(ErrorCode::FrameSizeError));
        }
        let increment_size = get_stream_id(full.as_slice(), 0);
        if increment_size == 0 {
            return Err(H2Error::StreamError(self.header.stream_id, ErrorCode::ProtocolError));
        }
        Ok(self.complete_frame(Payload::WindowUpdate(WindowUpdate::new(increment_size))))
    }

    /// Decodes a RST_STREAM payload: not on stream 0, exactly 4 octets.
    pub fn decode_reset_payload(&mut self, buf: &[u8]) -> (r: Result<FrameKind, H2Error>)
        requires
            old(self).wf(),
        ensures
            final(self).wf(),
            match reset_step(old(self).state(), old(self).state().buf + buf@) {
                Ok((s, k)) => (r matches Ok(fk) && kind_view(fk) == k) && final(self).state() == s,
                Err(e) => r matches Err(e2) && e2 == e,
            },
    {
        if self.header.stream_id == 0 {
            return Err(H2Error::ConnectionError(ErrorCode::ProtocolError));
        }
        let full = self.payload_bytes(buf);
        if self.header.payload_length != 4 || full.len() != 4 {
            return Err(H2Error::ConnectionError(ErrorCode::FrameSizeError));
        }
        let code = get_code_value(full.as_slice(), 0);
        Ok(self.complete_frame(Payload::RstStream(RstStream::new(code))))
    }

    /// Decodes a SETTINGS payload: on stream 0, a multiple of 6 octets, empty
    /// when it acknowledges.
    pub fn decode_settings_payload(&mut self, buf: &[u8]) -> (r: Result<FrameKind, H2Error>)
        requires
            old(self).wf(),
        ensures
            final(self).wf(),
            match settings_step(old(self).state(), old(self).state().buf + buf@) {
                Ok((s, k)) => (r matches Ok(fk) && kind_view(fk) == k) && final(self).state() == s,
                Err(e) => r matches Err(e2) && e2 == e,
            },
    {
        if self.header.stream_id != 0 {
            return Err(H2Error::ConnectionError(ErrorCode::ProtocolError));
        }
        let full = self.payload_bytes(buf);
        if self.header.payload_length % 6 != 0 {
            return Err(H2Error::ConnectionError(ErrorCode::FrameSizeError));
        }
        if self.header.is_ack() {
            if self.header.payload_length != 0 || full.len() != 0 {
                return Err(H2Error::ConnectionError(ErrorCode::FrameSizeError));
            }
            let empty: Vec<Setting> = Vec::new();
            assert(empty@ =~= Seq::<Setting>::empty());
            return Ok(self.complete_frame(Payload::Settings(Settings::new(empty))));
        }
        if full.len() % 6 != 0 {
            return Err(H2Error::ConnectionError(ErrorCode::FrameSizeError));
        }
        let n = full.len() / 6;
        let mut settings: Vec<Setting> = Vec::new();
        let mut i: usize = 0;
        while i < n
            invariant
                self.wf(),
                self.state() == old(self).state(),
                full@ == old(self).state().buf + buf@,
                full@.len() % 6 == 0,
                old(self).state().header.stream_id == 0,
                old(self).state().header.payload_length % 6 == 0,
                !has_flag(old(self).state().header.flags, ACK_MASK),
                n == full@.len() / 6,
                i <= n,
                settings_prefix(full@, i as nat) == Ok::<Seq<Setting>, H2Error>(settings@),
            decreases n - i,
        {
            assert(i * 6 + 6 <= full@.len()) by (nonlinear_arith)
                requires
                    i < n,
                    n == full@.len() / 6,
            ;
            match split_token_to_setting(full.as_slice(), i * 6) {
                Err(e) => {
                    proof {
                        assert(setting_at(full@, i * 6) == Err::<Option<Setting>, H2Error>(e));
                        assert(settings_prefix(full@, (i + 1) as nat) == Err::<Seq<Setting>, H2Error>(e));
                        lemma_settings_error_stays(full@, (i + 1) as nat, n as nat);
                    }
                    return Err(e);
                },
                Ok(Some(setting)) => {
                    settings.push(setting);
                },
                Ok(None) => {},
            }
            i = i + 1;
        }
        Ok(self.complete_frame(Payload::Settings(Settings::new(settings))))
    }

    /// Decodes a DATA payload, removing its padding.
    fn decode_data_payload(&mut self, buf: &[u8]) -> (r: Result<FrameKind, H2Error>)
        requires
            old(self).wf(),
            old(self).buffer@.len() + buf@.len() == old(self).header.payload_length,
        ensures
            final(self).wf(),
            match data_step(old(self).state(), old(self).state().buf + buf@) {
                Ok((s, k)) => (r matches Ok(fk) && kind_view(fk) == k) && final(self).state() == s,
                Err(e) => r matches Err(e2) && e2 == e,
            },
    {
        if self.header.stream_id == 0 {
            return Err(H2Error::ConnectionError(ErrorCode::ProtocolError));
        }
        let full = self.payload_bytes(buf);
        let len = self.header.payload_length;
        if len == 0 {
            let empty: Vec<u8> = Vec::new();
            assert(empty@ =~= Seq::<u8>::empty());
            return Ok(self.complete_frame(Payload::Data(Data::new(empty))));
        }
        let data = if self.header.is_padded() {
            let padded_length = full[0] as usize;
            if len <= padded_length {
                return Err(H2Error::ConnectionError(ErrorCode::ProtocolError));
            }
            copy_bytes(&full.as_slice()[1..len - padded_length])
        } else {
            copy_bytes(&full.as_slice()[0..len])
        };
        Ok(self.complete_frame(Payload::Data(Data::new(data))))
    }

    /// Decodes a HEADERS payload: padding and priority fields are skipped,
    /// the header block fragment goes to the HPACK decoder; without
    /// END_HEADERS the block stays open for CONTINUATION frames.
    fn decode_headers_payload(&mut self, buf: &[u8]) -> (r: Result<FrameKind, H2Error>)
        requires
            old(self).wf(),
            old(self).buffer@.len() + buf@.len() == old(self).header.payload_length,
        ensures
            final(self).wf(),
            match headers_step(old(self).state(), old(self).state().buf + buf@) {
                Ok((s, k)) => (r matches Ok(fk) && kind_view(fk) == k) && final(self).state() == s,
                Err(e) => r matches Err(e2) && e2 == e,
            },
    {
        if self.header.stream_id == 0 {
            return Err(H2Error::ConnectionError(ErrorCode::ProtocolError));
        }
        let full = self.payload_bytes(buf);
        let priority = self.header.is_headers_priority();
        let is_padded = self.header.is_padded();
        let end_headers = self.header.is_end_headers();
        let end_stream = self.header.is_end_stream();
        let len = self.header.payload_length;
        let mut fragment_start_index: usize = 0;
        let mut fragment_end_index: usize = len;
        if is_padded {
            let padded_length: usize = if full.len() > 0 { full[0] as usize } else { 0 };
            if len <= padded_length {
                return Err(H2Error::ConnectionError(ErrorCode::ProtocolError));
            }
            fragment_start_index = 1;
            fragment_end_index = len - padded_length;
        }
        if priority {
            fragment_start_index = fragment_start_index + 5;
        }
        if fragment_start_index > fragment_end_index {
            return Err(H2Error::ConnectionError(ErrorCode::ProtocolError));
        }
        let fragment = &full.as_slice()[fragment_start_index..fragment_end_index];
        if end_headers {
            match self.hp_decode(fragment) {
                Err(e) => {
                    return Err(e);
                },
                Ok(()) => {},
            }
            match self.hp_finish() {
                Err(e) => Err(e),
                Ok(parts) => Ok(self.complete_frame(Payload::Headers(HeadersPayload::new(parts)))),
            }
        } else {
            self.continuations.flags = self.header.flags;
            self.continuations.is_end_stream = end_stream;
            self.continuations.is_end_headers = false;
            self.continuations.stream_id = self.header.stream_id;
            match self.hp_decode(fragment) {
                Err(e) => Err(e),
                Ok(()) => Ok(FrameKind::Partial),
            }
        }
    }

    /// Decodes a PUSH_PROMISE payload: the promised stream must not be 0;
    /// without END_HEADERS the block stays open for CONTINUATION frames.
    pub fn decode_push_promise_payload(&mut self, buf: &[u8]) -> (r: Result<FrameKind, H2Error>)
        requires
            old(self).wf(),
            old(self).state().buf.len() + buf@.len() >= old(self).state().header.payload_length,
        ensures
            final(self).wf(),
            match push_promise_step(old(self).state(), old(self).state().buf + buf@) {
                Ok((s, k)) => (r matches Ok(fk) && kind_view(fk) == k) && final(self).state() == s,
                Err(e) => r matches Err(e2) && e2 == e,
            },
    {
        if self.header.stream_id == 0 {
            return Err(H2Error::ConnectionError(ErrorCode::ProtocolError));
        }
        let full = self.payload_bytes(buf);
        let is_padded = self.header.is_padded();
        let end_headers = self.header.is_end_headers();
        let len = self.header.payload_length;
        let mut fragment_start_index: usize = 4;
        let mut fragment_end_index: usize = len;
        if is_padded {
            let padded_length: usize = if full.len() > 0 { full[0] as usize } else { 0 };
            if len <= padded_length {
                return Err(H2Error::ConnectionError(ErrorCode::ProtocolError));
            }
            fragment_start_index = 5;
            fragment_end_index = len - padded_length;
        }
        if fragment_start_index > fragment_end_index {
            return Err(H2Error::ConnectionError(ErrorCode::ProtocolError));
        }
        match self.hp_decode(full.as_slice()) {
            Err(e) => {
                return Err(e);
            },
            Ok(()) => {},
        }
        let promised_stream_id = if is_padded {
            get_stream_id(full.as_slice(), 1)
        } else {
            get_stream_id(full.as_slice(), 0)
        };
        if promised_stream_id == 0 {
            return Err(H2Error::ConnectionError(ErrorCode::ProtocolError));
        }
        self.push_promise_framing(end_headers, promised_stream_id)
    }

    fn push_promise_framing(&mut self, end_headers: bool, promised_stream_id: StreamId) -> (r: Result<FrameKind, H2Error>)
        requires
            old(self).wf(),
        ensures
            final(self).wf(),
            end_headers ==> match hp_finish(old(self).state()) {
                Ok((s, parts)) => (r matches Ok(fk) && kind_view(fk) == KindV::Complete(
                    (old(self).header.stream_id, old(self).header.flags, PayloadV::PushPromise(promised_stream_id, parts)),
                )) && final(self).state() == s,
                Err(e) => r matches Err(e2) && e2 == e,
            },
            !end_headers ==> (r matches Ok(FrameKind::Partial)) && final(self).state() == (DState {
                cont: (old(self).header.flags, old(self).state().cont.1, old(self).header.stream_id, false, promised_stream_id),
                ..old(self).state()
            }),
    {
        if end_headers {
            match self.hp_finish() {
                Err(e) => Err(e),
                Ok(parts) => Ok(self.complete_frame(Payload::PushPromise(PushPromise::new(promised_stream_id, parts)))),
            }
        } else {
            self.continuations.flags = self.header.flags;
            self.continuations.is_end_headers = false;
            self.continuations.stream_id = self.header.stream_id;
            self.continuations.promised_stream_id = promised_stream_id;
            Ok(FrameKind::Partial)
        }
    }

    /// Decodes a CONTINUATION payload; with END_HEADERS the open header
    /// block becomes a HEADERS or PUSH_PROMISE frame.
    fn decode_continuation_payload(&mut self, buf: &[u8]) -> (r: Result<FrameKind, H2Error>)
        requires
            old(self).wf(),
        ensures
            final(self).wf(),
            match continuation_step(old(self).state(), old(self).state().buf + buf@) {
                Ok((s, k)) => (r matches Ok(fk) && kind_view(fk) == k) && final(self).state() == s,
                Err(e) => r matches Err(e2) && e2 == e,
            },
    {
        if self.header.stream_id == 0 {
            return Err(H2Error::ConnectionError(ErrorCode::ProtocolError));
        }
        let full = self.payload_bytes(buf);
        let end_headers = self.header.is_end_headers();
        match self.hp_decode(full.as_slice()) {
            Err(e) => {
                return Err(e);
            },
            Ok(()) => {},
        }
        if end_headers {
            match self.hp_finish() {
                Err(e) => Err(e),
                Ok(headers) => {
                    let c = self.continuations;
                    let payload = if c.promised_stream_id != 0 {
                        Payload::PushPromise(PushPromise::new(c.promised_stream_id, headers))
                    } else {
                        Payload::Headers(HeadersPayload::new(headers))
                    };
                    let frame = Frame::new(c.stream_id, FrameFlags::new(c.flags), payload);
                    self.continuations.reset();
                    Ok(FrameKind::Complete(frame))
                },
            }
        } else {
            Ok(FrameKind::Partial)
        }
    }

    /// Reads the frame header: the octets up to its end are taken from
    /// `buf`; returns how many, or `None` when `buf` ends first.
    fn decode_frame_header(&mut self, buf: &[u8]) -> (r: Result<Option<usize>, H2Error>)
        requires
            old(self).wf(),
            !old(self).state().payload_stage,
        ensures
            final(self).wf(),
            ({
                let s = old(self).state();
                let need = 9 - s.buf.len();
                if buf@.len() < need {
                    r == Ok::<Option<usize>, H2Error>(None) && final(self).state() == (DState { buf: s.buf + buf@, ..s })
                } else {
                    match parse_header(s.buf + buf@.subrange(0, need), s.max_frame_size) {
                        Err(e) => r == Err::<Option<usize>, H2Error>(e),
                        Ok(h) => r == Ok::<Option<usize>, H2Error>(Some(need as usize))
                            && final(self).state() == (DState { payload_stage: true, buf: Seq::empty(), header: h, ..s }),
                    }
                }
            }),
    {
        let payload_pos = FRAME_HEADER_LENGTH - self.buffer.len();
        if buf.len() < payload_pos {
            push_bytes(&mut self.buffer, buf);
            return Ok(None);
        }
        let header_buffer = self.payload_bytes(&buf[0..payload_pos]);
        let payload_length = (header_buffer[0] as usize) * 0x10000 + (header_buffer[1] as usize) * 0x100
            + (header_buffer[2] as usize);
        if payload_length > self.max_frame_size as usize {
            return Err(H2Error::ConnectionError(ErrorCode::FrameSizeError));
        }
        let frame_type = header_buffer[3];
        let flags = header_buffer[4];
        let stream_id = get_stream_id(header_buffer.as_slice(), 5);
        self.header = FrameHeader { stream_id, flags, frame_type, payload_length };
        self.buffer.clear();
        self.stage = Stage::Payload;
        Ok(Some(payload_pos))
    }

    /// Reads the frame payload: once all of it is there, decodes it by the
    /// frame type; returns how many octets of `buf` were taken and the item,
    /// or `None` when `buf` ends first.
    fn decode_frame_payload(&mut self, buf: &[u8]) -> (r: Result<Option<(usize, FrameKind)>, H2Error>)
        requires
            old(self).wf(),
            old(self).state().payload_stage,
        ensures
            final(self).wf(),
            ({
                let s = old(self).state();
                let need = s.header.payload_length - s.buf.len();
                if breaks_block(s) {
                    r matches Err(e) && e == conn(ErrorCode::ProtocolError)
                } else if buf@.len() + s.buf.len() < s.header.payload_length {
                    r matches Ok(None) && final(self).state() == (DState { buf: s.buf + buf@, ..s })
                } else {
                    match payload_step(s, s.buf + buf@.subrange(0, need)) {
                        Err(e) => r matches Err(e2) && e2 == e,
                        Ok((s2, k)) => (r matches Ok(Some((n, fk))) && n == need && kind_view(fk) == k)
                            && final(self).state() == after_frame(s2),
                    }
                }
            }),
    {
        if !self.continuations.is_end_headers
            && (self.header.stream_id != self.continuations.stream_id || self.header.frame_type != 9) {
            return Err(H2Error::ConnectionError(ErrorCode::ProtocolError));
        }
        let frame_end_index = self.header.payload_length - self.buffer.len();
        if buf.len() < frame_end_index {
            push_bytes(&mut self.buffer, buf);
            return Ok(None);
        }
        let chunk = &buf[0..frame_end_index];
        let t = self.header.frame_type;
        proof {
            reveal(payload_step);
        }
        let decoded = if t == 0 {
            self.decode_data_payload(chunk)
        } else if t == 1 {
            self.decode_headers_payload(chunk)
        } else if t == 2 {
            self.decode_priority_payload(chunk)
        } else if t == 3 {
            self.decode_reset_payload(chunk)
        } else if t == 4 {
            self.decode_settings_payload(chunk)
        } else if t == 5 {
            self.decode_push_promise_payload(chunk)
        } else if t == 6 {
            self.decode_ping_payload(chunk)
        } else if t == 7 {
            self.decode_goaway_payload(chunk)
        } else if t == 8 {
            self.decode_window_update_payload(chunk)
        } else if t == 9 {
            self.decode_continuation_payload(chunk)
        } else {
            return Err(H2Error::ConnectionError(ErrorCode::ProtocolError));
        };
        match decoded {
            Err(e) => Err(e),
            Ok(frame) => {
                self.header = FrameHeader::new();
                self.buffer.clear();
                self.stage = Stage::Header;
                Ok(Some((frame_end_index, frame)))
            },
        }
    }

    /// Decodes a fragment of the byte stream: the frames it completes, in
    /// order, each HEADERS or PUSH_PROMISE frame whose header block continues
    /// as `Partial`; an incomplete frame at its end is kept for the next call.
    pub fn decode(&mut self, buf: &[u8]) -> (r: Result<Frames, H2Error>)
        requires
            old(self).wf(),
        ensures
            final(self).wf(),
            match decode_steps(old(self).state(), buf@) {
                Ok((s, ks)) => (r matches Ok(fs) && fs.items() == ks) && final(self).state() == s,
                Err(e) => r matches Err(e2) && e2 == e,
            },
    {
        let mut frames = Frames::new();
        let mut pos: usize = 0;
        proof {
            assert(buf@.subrange(0, buf@.len() as int) =~= buf@);
            assert(prepend(frames.items(), decode_steps(self.state(), buf@)) == decode_steps(self.state(), buf@)) by {
                match decode_steps(self.state(), buf@) {
                    Ok((s, ks)) => {
                        assert(frames.items() + ks =~= ks);
                    },
                    Err(e) => {},
                }
            }
        }
        loop
            invariant
                self.wf(),
                pos <= buf@.len(),
                decode_steps(old(self).state(), buf@) == prepend(
                    frames.items(),
                    decode_steps(self.state(), buf@.subrange(pos as int, buf@.len() as int)),
                ),
            decreases buf@.len() - pos, (if self.state().payload_stage { 1int } else { 0int }),
        {
            let ghost rest = buf@.subrange(pos as int, buf@.len() as int);
            let ghost s0 = self.state();
            let ghost items = frames.items();
            match self.stage {
                Stage::Header => {
                    match self.decode_frame_header(&buf[pos..buf.len()]) {
                        Err(e) => {
                            return Err(e);
                        },
                        Ok(None) => {
                            proof {
                                assert(items + Seq::<KindV>::empty() =~= items);
                            }
                            return Ok(frames);
                        },
                        Ok(Some(n)) => {
                            proof {
                                assert(rest.subrange(n as int, rest.len() as int) =~= buf@.subrange(pos + n, buf@.len() as int));
                            }
                            pos = pos + n;
                        },
                    }
                },
                Stage::Payload => {
                    match self.decode_frame_payload(&buf[pos..buf.len()]) {
                        Err(e) => {
                            return Err(e);
                        },
                        Ok(None) => {
                            proof {
                                assert(items + Seq::<KindV>::empty() =~= items);
                            }
                            return Ok(frames);
                        },
                        Ok(Some((n, frame))) => {
                            let ghost k = kind_view(frame);
                            frames.push(frame);
                            proof {
                                let next = buf@.subrange(pos + n, buf@.len() as int);
                                assert(rest.subrange(n as int, rest.len() as int) =~= next);
                                match decode_steps(self.state(), next) {
                                    Ok((s3, ks)) => {
                                        assert(items.push(k) + ks =~= items + (seq![k] + ks));
                                    },
                                    Err(e) => {},
                                }
                            }
                            pos = pos + n;
                        },
                    }
                },
            }
        }
    }
}

} // verus!
