//! HTTP/2 frame encoder: writes a frame's octets into buffers of any size,
//! splitting DATA payloads by the maximum frame size and header blocks into
//! CONTINUATION frames.
use vstd::prelude::*;
use crate::bytes::{copy_bytes, push_bytes};
use crate::h2::error::StreamId;
use crate::h2::frame::{
    first_setting_with_id, frame_view, payload_view, setting_id, FrameV, Frame, FrameFlags, Payload, PayloadV, Setting,
    END_HEADERS_MASK,
};
use crate::h2::hpack::table::HName;
use crate::h2::parts::PartsView;
use crate::h2::hpack::encoder::{fields_encoding, parts_fields, update_prefix, HpackEncoder};
use crate::h2::hpack::table::evict;

verus! {

const DEFAULT_MAX_FRAME_SIZE: usize = 16384;

const DEFAULT_HEADER_TABLE_SIZE: usize = 4096;

/// The largest header block fragment held at a time.
pub open spec fn block_chunk() -> nat {
    16384
}

/// Two octets of `n`, big-endian.
pub open spec fn b2(n: nat) -> Seq<u8> {
    seq![((n / 0x100) % 0x100) as u8, (n % 0x100) as u8]
}

/// Three octets of `n`, big-endian.
pub open spec fn b3(n: nat) -> Seq<u8> {
    seq![((n / 0x10000) % 0x100) as u8, ((n / 0x100) % 0x100) as u8, (n % 0x100) as u8]
}

/// Four octets of `n`, big-endian.
pub open spec fn b4(n: nat) -> Seq<u8> {
    seq![((n / 0x1000000) % 0x100) as u8, ((n / 0x10000) % 0x100) as u8, ((n / 0x100) % 0x100) as u8, (n % 0x100) as u8]
}

/// A frame header: payload length, type, flags, stream identifier.
pub open spec fn frame_head(len: nat, t: u8, flags: u8, sid: nat) -> Seq<u8> {
    b3(len) + seq![t, flags] + b4(sid)
}

/// The value a setting carries on the wire.
pub open spec fn setting_value(s: Setting) -> u32 {
    match s {
        Setting::HeaderTableSize(v) => v,
        Setting::EnablePush(b) => if b { 1 } else { 0 },
        Setting::MaxConcurrentStreams(v) => v,
        Setting::InitialWindowSize(v) => v,
        Setting::MaxFrameSize(v) => v,
        Setting::MaxHeaderListSize(v) => v,
    }
}

/// A SETTINGS payload: six octets per setting, identifier then value.
pub open spec fn settings_bytes(l: Seq<Setting>) -> Seq<u8>
    decreases l.len(),
{
    if l.len() == 0 {
        Seq::empty()
    } else {
        settings_bytes(l.drop_last()) + b2(setting_id(l.last()) as nat) + b4(setting_value(l.last()) as nat)
    }
}

/// A PRIORITY payload: exclusive bit and stream dependency, then weight.
pub open spec fn priority_bytes(exclusive: bool, dependency: u32, weight: u8) -> Seq<u8> {
    seq![
        ((if exclusive { 0x80nat } else { 0nat }) + (dependency / 0x1000000) % 0x80) as u8,
        ((dependency / 0x10000) % 0x100) as u8,
        ((dependency / 0x100) % 0x100) as u8,
        (dependency % 0x100) as u8,
        weight,
    ]
}

/// The octets of a frame with a fixed-size or listed payload: SETTINGS and
/// PING on stream 0 whatever the frame says, GOAWAY, WINDOW_UPDATE,
/// PRIORITY and RST_STREAM on the frame's stream.
pub open spec fn simple_wire(f: FrameV) -> Seq<u8> {
    match f.2 {
        PayloadV::Settings(l) => frame_head(l.len() * 6, 4, f.1, 0) + settings_bytes(l),
        PayloadV::Ping(d) => frame_head(8, 6, f.1, 0) + d,
        PayloadV::Goaway(code, last, debug) => frame_head(debug.len() + 8, 7, f.1, f.0 as nat) + b4(last as nat)
            + b4(code as nat) + debug,
        PayloadV::WindowUpdate(inc) => frame_head(4, 8, f.1, f.0 as nat) + b4(inc as nat),
        PayloadV::Priority(e, d, w) => frame_head(5, 2, f.1, f.0 as nat) + priority_bytes(e, d, w),
        PayloadV::RstStream(code) => frame_head(4, 3, f.1, f.0 as nat) + b4(code as nat),
        _ => Seq::empty(),
    }
}

/// Whether a payload is encoded by `simple_wire`.
pub open spec fn is_simple(p: PayloadV) -> bool {
    ||| p is Settings
    ||| p is Ping
    ||| p is Goaway
    ||| p is WindowUpdate
    ||| p is Priority
    ||| p is RstStream
}

/// The smaller of two numbers.
pub open spec fn min_nat(a: nat, b: nat) -> nat {
    if a <= b {
        a
    } else {
        b
    }
}

/// The DATA frames for the last `rem` octets of `data` still to send, each
/// carrying the next at most `max` of them, with END_STREAM kept on the
/// last frame only.
pub open spec fn data_frames(sid: nat, flags: u8, data: Seq<u8>, rem: nat, max: nat) -> Seq<u8>
    decreases rem,
{
    if max == 0 {
        Seq::empty()
    } else {
        let n = min_nat(rem, max);
        let f = if rem <= max { flags } else { flags & 0xfe };
        let at = data.len() - rem;
        frame_head(n, 0, f, sid) + data.subrange(at, at + n) + if rem - n == 0 {
            Seq::empty()
        } else {
            data_frames(sid, flags, data, (rem - n) as nat, max)
        }
    }
}

/// The CONTINUATION frames for the rest `out` of a header block, at most
/// 16384 octets each; the last one carries END_HEADERS when it fits `max`.
pub open spec fn cont_frames(sid: nat, out: Seq<u8>, max: nat) -> Seq<u8>
    decreases out.len(),
{
    if out.len() == 0 {
        Seq::empty()
    } else {
        let c = min_nat(out.len(), block_chunk());
        let rest = out.subrange(c as int, out.len() as int);
        cont_head(sid, c, rest.len() == 0, max) + out.subrange(0, c as int) + cont_frames(sid, rest, max)
    }
}

/// The header of a CONTINUATION frame for a fragment of `c` octets.
pub open spec fn cont_head(sid: nat, c: nat, last: bool, max: nat) -> Seq<u8> {
    frame_head(min_nat(c, max), 9, if c <= max && last { 4 } else { 0 }, sid)
}

/// The octets of a HEADERS frame whose encoded header block is `all`: the
/// first 16384 octets in the HEADERS frame (END_HEADERS cleared when more
/// follow), the rest in CONTINUATION frames.
pub open spec fn headers_wire(sid: nat, flags: u8, all: Seq<u8>, max: nat) -> Seq<u8> {
    let c = min_nat(all.len(), block_chunk());
    let rest = all.subrange(c as int, all.len() as int);
    frame_head(c, 1, if rest.len() == 0 { flags } else { flags & 0xfb }, sid) + all.subrange(0, c as int)
        + cont_frames(sid, rest, max)
}

/// Every octet of `b1` equals `b0` except the `k` octets from `start`, which
/// are the first `k` octets of `p0`; `p1` is what remains of `p0`.
pub open spec fn wrote(p0: Seq<u8>, p1: Seq<u8>, b0: Seq<u8>, b1: Seq<u8>, start: int, k: int) -> bool {
    &&& 0 <= start
    &&& 0 <= k
    &&& start + k <= b0.len()
    &&& k <= p0.len()
    &&& b1.len() == b0.len()
    &&& b1.subrange(start, start + k) == p0.subrange(0, k)
    &&& b1.subrange(0, start) == b0.subrange(0, start)
    &&& b1.subrange(start + k, b1.len() as int) == b0.subrange(start + k, b0.len() as int)
    &&& p1 == p0.subrange(k, p0.len() as int)
}

/// Two consecutive writes make one.
proof fn lemma_wrote_compose(p0: Seq<u8>, p1: Seq<u8>, p2: Seq<u8>, b0: Seq<u8>, b1: Seq<u8>, b2: Seq<u8>, s: int, w: int, k: int)
    requires
        wrote(p0, p1, b0, b1, s, w),
        wrote(p1, p2, b1, b2, s + w, k),
    ensures
        wrote(p0, p2, b0, b2, s, w + k),
{
    assert(b2.subrange(s, s + w + k) =~= p0.subrange(0, w + k)) by {
        assert forall|i: int| 0 <= i < w + k implies #[trigger] b2.subrange(s, s + w + k)[i] == p0.subrange(0, w + k)[i] by {
            if i < w {
                assert(b2.subrange(0, s + w)[s + i] == b1.subrange(0, s + w)[s + i]);
                assert(b1.subrange(s, s + w)[i] == p0.subrange(0, w)[i]);
            } else {
                assert(b2.subrange(s + w, s + w + k)[i - w] == p1.subrange(0, k)[i - w]);
            }
        }
    }
    assert(b2.subrange(0, s) =~= b0.subrange(0, s)) by {
        assert forall|i: int| 0 <= i < s implies #[trigger] b2.subrange(0, s)[i] == b0.subrange(0, s)[i] by {
            assert(b2.subrange(0, s + w)[i] == b1.subrange(0, s + w)[i]);
            assert(b1.subrange(0, s)[i] == b0.subrange(0, s)[i]);
        }
    }
    assert(b2.subrange(s + w + k, b2.len() as int) =~= b0.subrange(s + w + k, b0.len() as int)) by {
        assert forall|i: int| 0 <= i < b2.len() - (s + w + k) implies #[trigger] b2.subrange(s + w + k, b2.len() as int)[i]
            == b0.subrange(s + w + k, b0.len() as int)[i] by {
            assert(b2.subrange(s + w + k, b2.len() as int)[i] == b1.subrange(s + w + k, b1.len() as int)[i]);
            assert(b1.subrange(s + w, b1.len() as int)[i + k] == b0.subrange(s + w, b0.len() as int)[i + k]);
        }
    }
    assert(p2 =~= p0.subrange(w + k, p0.len() as int));
}

/// A write of a prefix of `p` is a write of a prefix of `p + q`.
proof fn lemma_wrote_append(p: Seq<u8>, p1: Seq<u8>, q: Seq<u8>, b0: Seq<u8>, b1: Seq<u8>, s: int, k: int)
    requires
        wrote(p, p1, b0, b1, s, k),
    ensures
        wrote(p + q, p1 + q, b0, b1, s, k),
{
    assert((p + q).subrange(0, k) =~= p.subrange(0, k));
    assert(p1 + q =~= (p + q).subrange(k, (p + q).len() as int));
}

/// Nothing written.
proof fn lemma_wrote_none(p0: Seq<u8>, b0: Seq<u8>, start: int)
    requires
        0 <= start <= b0.len(),
    ensures
        wrote(p0, p0, b0, b0, start, 0),
{
    assert(b0.subrange(start, start) =~= p0.subrange(0, 0));
    assert(p0 =~= p0.subrange(0, p0.len() as int));
}

/// Copies octets of `src` from `from` into `buf` from `start`, as many as
/// fit.
fn copy_out(buf: &mut [u8], start: usize, src: &[u8], from: usize) -> (k: usize)
    requires
        start <= old(buf)@.len(),
        from <= src@.len(),
    ensures
        k == min_nat((old(buf)@.len() - start) as nat, (src@.len() - from) as nat),
        wrote(src@.subrange(from as int, src@.len() as int), src@.subrange(from + k, src@.len() as int), old(buf)@, final(buf)@, start as int, k as int),
{
    let avail = buf.len() - start;
    let left = src.len() - from;
    let k = if avail <= left { avail } else { left };
    let mut i: usize = 0;
    while i < k
        invariant
            i <= k,
            start + k <= buf@.len(),
            buf@.len() <= usize::MAX,
            src@.len() <= usize::MAX,
            from + k <= src@.len(),
            buf@.len() == old(buf)@.len(),
            buf@.subrange(start as int, start + i) == src@.subrange(from as int, from + i),
            buf@.subrange(0, start as int) == old(buf)@.subrange(0, start as int),
            buf@.subrange(start + k, buf@.len() as int) == old(buf)@.subrange(start + k, old(buf)@.len() as int),
        decreases k - i,
    {
        buf[start + i] = src[from + i];
        i = i + 1;
        assert(buf@.subrange(start as int, start + i) =~= src@.subrange(from as int, from + i));
        assert(buf@.subrange(0, start as int) =~= old(buf)@.subrange(0, start as int));
        assert(buf@.subrange(start + k, buf@.len() as int) =~= old(buf)@.subrange(start + k, old(buf)@.len() as int));
    }
    let ghost p0 = src@.subrange(from as int, src@.len() as int);
    assert(buf@.subrange(start as int, start + k) =~= p0.subrange(0, k as int));
    assert(src@.subrange(from + k, src@.len() as int) =~= p0.subrange(k as int, p0.len() as int));
    k
}

fn push_b2(v: &mut Vec<u8>, n: u16)
    ensures
        final(v)@ == old(v)@ + b2(n as nat),
{
    v.push(((n / 0x100) % 0x100) as u8);
    v.push((n % 0x100) as u8);
    assert(v@ =~= old(v)@ + b2(n as nat));
}

fn push_b3(v: &mut Vec<u8>, n: usize)
    ensures
        final(v)@ == old(v)@ + b3(n as nat),
{
    v.push(((n / 0x10000) % 0x100) as u8);
    v.push(((n / 0x100) % 0x100) as u8);
    v.push((n % 0x100) as u8);
    assert(v@ =~= old(v)@ + b3(n as nat));
}

fn push_b4(v: &mut Vec<u8>, n: u32)
    ensures
        final(v)@ == old(v)@ + b4(n as nat),
{
    v.push(((n / 0x1000000) % 0x100) as u8);
    v.push(((n / 0x10000) % 0x100) as u8);
    v.push(((n / 0x100) % 0x100) as u8);
    v.push((n % 0x100) as u8);
    assert(v@ =~= old(v)@ + b4(n as nat));
}

/// The octets of a frame header.
fn frame_head_vec(len: usize, t: u8, flags: u8, sid: u32) -> (r: Vec<u8>)
    ensures
        r@ == frame_head(len as nat, t, flags, sid as nat),
{
    let mut v: Vec<u8> = Vec::new();
    push_b3(&mut v, len);
    v.push(t);
    v.push(flags);
    push_b4(&mut v, sid);
    assert(v@ =~= frame_head(len as nat, t, flags, sid as nat));
    v
}

fn setting_value_of(s: &Setting) -> (r: u32)
    ensures
        r == setting_value(*s),
{
    match s {
        Setting::HeaderTableSize(v) => *v,
        Setting::EnablePush(b) => if *b { 1 } else { 0 },
        Setting::MaxConcurrentStreams(v) => *v,
        Setting::InitialWindowSize(v) => *v,
        Setting::MaxFrameSize(v) => *v,
        Setting::MaxHeaderListSize(v) => *v,
    }
}

/// The octets of a SETTINGS payload.
fn settings_vec(list: &[Setting]) -> (r: Vec<u8>)
    ensures
        r@ == settings_bytes(list@),
{
    let mut v: Vec<u8> = Vec::new();
    let mut i: usize = 0;
    assert(list@.subrange(0, 0) =~= Seq::<Setting>::empty());
    while i < list.len()
        invariant
            i <= list@.len(),
            v@ == settings_bytes(list@.subrange(0, i as int)),
        decreases list@.len() - i,
    {
        let s = &list[i];
        push_b2(&mut v, s.setting_identifier());
        push_b4(&mut v, setting_value_of(s));
        proof {
            let t = list@.subrange(0, i + 1);
            assert(t.drop_last() =~= list@.subrange(0, i as int));
            assert(t.last() == list@[i as int]);
        }
        i = i + 1;
    }
    assert(list@.subrange(0, list@.len() as int) =~= list@);
    v
}

/// Errors of the frame encoder.
#[derive(Debug)]
pub enum FrameEncoderErr {
    /// Data could not be encoded.
    EncodingData,
    /// The frame's payload does not fit the encoding step.
    UnexpectedPayloadType,
    /// No frame is set.
    NoCurrentFrame,
    /// An internal inconsistency.
    InternalError,
    /// A HEADERS frame without END_HEADERS.
    HeadersNotEnd,
}

/// The part of the current frame the encoder writes next.
#[derive(PartialEq, Eq, Structural, Debug, Clone, Copy)]
pub enum FrameEncoderState {
    /// No frame set.
    Idle,
    /// The HEADERS frame header and its fragment.
    EncodingHeadersFrame,
    /// The rest of a header block fragment.
    EncodingHeadersPayload,
    /// Padding of a HEADERS frame.
    EncodingHeadersPadding,
    /// A CONTINUATION frame.
    EncodingContinuationFrames,
    /// A HEADERS frame and its CONTINUATION frames are written.
    HeadersComplete,
    /// A DATA frame header.
    EncodingDataHeader,
    /// DATA frame payload.
    EncodingDataPayload,
    /// Padding of a DATA frame.
    EncodingDataPadding,
    /// The SETTINGS frame header.
    EncodingSettingsFrame,
    /// The SETTINGS frame payload.
    EncodingSettingsPayload,
    /// The GOAWAY frame header.
    EncodingGoawayFrame,
    /// The GOAWAY frame payload.
    EncodingGoawayPayload,
    /// The WINDOW_UPDATE frame header.
    EncodingWindowUpdateFrame,
    /// The WINDOW_UPDATE frame payload.
    EncodingWindowUpdatePayload,
    /// The PRIORITY frame header.
    EncodingPriorityFrame,
    /// The PRIORITY frame payload.
    EncodingPriorityPayload,
    /// The RST_STREAM frame header.
    EncodingRstStreamFrame,
    /// The RST_STREAM frame payload.
    EncodingRstStreamPayload,
    /// The PING frame header.
    EncodingPingFrame,
    /// The PING frame payload.
    EncodingPingPayload,
    /// A frame other than HEADERS is written.
    DataComplete,
}

/// Whether a state writes nothing more.
pub open spec fn is_terminal(s: FrameEncoderState) -> bool {
    ||| s is Idle
    ||| s is HeadersComplete
    ||| s is DataComplete
}

/// Whether a state writes the header of a SETTINGS, GOAWAY, WINDOW_UPDATE,
/// PRIORITY, RST_STREAM or PING frame.
pub open spec fn is_simple_head(s: FrameEncoderState) -> bool {
    ||| s is EncodingSettingsFrame
    ||| s is EncodingGoawayFrame
    ||| s is EncodingWindowUpdateFrame
    ||| s is EncodingPriorityFrame
    ||| s is EncodingRstStreamFrame
    ||| s is EncodingPingFrame
}

/// Whether a state writes the payload of a SETTINGS, GOAWAY,
/// WINDOW_UPDATE, PRIORITY, RST_STREAM or PING frame.
pub open spec fn is_simple_body(s: FrameEncoderState) -> bool {
    ||| s is EncodingSettingsPayload
    ||| s is EncodingGoawayPayload
    ||| s is EncodingWindowUpdatePayload
    ||| s is EncodingPriorityPayload
    ||| s is EncodingRstStreamPayload
    ||| s is EncodingPingPayload
}

/// The states whose octets do not depend on the maximum frame size.
pub open spec fn max_free(s: FrameEncoderState) -> bool {
    is_simple_head(s) || is_simple_body(s) || is_terminal(s)
}

/// Payload states come after header states of the same frame.
pub open spec fn phase(s: FrameEncoderState) -> int {
    if is_simple_body(s) || s is EncodingDataPayload || s is EncodingHeadersPayload {
        1
    } else {
        0
    }
}

/// The settings after `update_setting`.
pub open spec fn settings_updated(l: Seq<Setting>, s: Setting) -> Seq<Setting> {
    match first_setting_with_id(l, setting_id(s)) {
        Some(i) => l.update(i, s),
        None => l.push(s),
    }
}

/// Six octets per setting.
proof fn lemma_settings_bytes_len(l: Seq<Setting>)
    ensures
        settings_bytes(l).len() == l.len() * 6,
    decreases l.len(),
{
    if l.len() > 0 {
        lemma_settings_bytes_len(l.drop_last());
    }
}

/// A setting found by identifier lies within the list.
proof fn lemma_first_setting_bounds(l: Seq<Setting>, id: u16, i: int)
    ensures
        crate::h2::frame::first_setting_from(l, id, i) matches Some(k) ==> i <= k < l.len(),
    decreases l.len() - i,
{
    if 0 <= i < l.len() && setting_id(l[i]) != id {
        lemma_first_setting_bounds(l, id, i + 1);
    }
}

/// Encoder of HTTP/2 frames into octets, in buffers of any size.
pub struct FrameEncoder {
    current_frame: Option<Frame>,
    max_frame_size: usize,
    max_header_list_size: usize,
    hpack_encoder: HpackEncoder,
    state: FrameEncoderState,
    encoded_bytes: usize,
    data_offset: usize,
    remaining_header_payload: usize,
    remaining_payload_bytes: usize,
    is_end_stream: bool,
    is_end_headers: bool,
    header_payload_buffer: Vec<u8>,
    header_payload_index: usize,
    simple: Vec<u8>,
}

impl FrameEncoder {
    /// The frame being encoded.
    pub closed spec fn frame(&self) -> Option<FrameV> {
        match self.current_frame {
            Some(f) => Some(frame_view(f)),
            None => None,
        }
    }

    /// The maximum header list size recorded.
    pub closed spec fn header_list_max(&self) -> nat {
        self.max_header_list_size as nat
    }

    /// The maximum frame size.
    pub closed spec fn max(&self) -> nat {
        self.max_frame_size as nat
    }

    /// The current state.
    pub closed spec fn stage(&self) -> FrameEncoderState {
        self.state
    }

    /// The HPACK dynamic table entries.
    pub closed spec fn hpack_entries(&self) -> Seq<(HName, Seq<u8>)> {
        self.hpack_encoder.entries()
    }

    /// The HPACK dynamic table size limit.
    pub closed spec fn hpack_max(&self) -> nat {
        self.hpack_encoder.max()
    }

    /// The HPACK table size limit still to announce in the next header
    /// block.
    pub closed spec fn hpack_update(&self) -> Option<nat> {
        self.hpack_encoder.size_update()
    }

    /// Encoded header block octets not yet taken into a frame.
    pub closed spec fn hpack_out(&self) -> Seq<u8> {
        self.hpack_encoder.out()
    }

    /// Whether header strings are Huffman-coded.
    pub closed spec fn huffman(&self) -> bool {
        self.hpack_encoder.huffman()
    }

    /// Octets of the current DATA frame's payload already written.
    pub closed spec fn data_written(&self) -> nat {
        self.data_offset as nat
    }

    /// The octets still to be written for the current frame.
    #[verifier::opaque]
    pub closed spec fn pending(&self) -> Seq<u8> {
        let max = self.max_frame_size as nat;
        let eb = self.encoded_bytes as int;
        match self.current_frame {
            None => Seq::empty(),
            Some(f) => {
                let fv = frame_view(f);
                let sid = fv.0 as nat;
                let out = self.hpack_encoder.out();
                let hb = self.header_payload_buffer@.subrange(self.header_payload_index as int, self.remaining_header_payload as int);
                let conts = cont_frames(sid, out, max);
                let rhp = self.remaining_header_payload as nat;
                let rem = self.remaining_payload_bytes as nat;
                let off = self.data_offset as nat;
                match self.state {
                    FrameEncoderState::EncodingHeadersFrame => {
                        let head = frame_head(rhp, 1, if out.len() == 0 { fv.1 } else { fv.1 & 0xfb }, sid);
                        head.subrange(eb, 9) + hb + conts
                    },
                    FrameEncoderState::EncodingHeadersPayload => hb + conts,
                    FrameEncoderState::EncodingContinuationFrames => cont_head(sid, rhp, out.len() == 0, max) + hb + conts,
                    FrameEncoderState::EncodingDataHeader => match fv.2 {
                        PayloadV::Data(d) => {
                            let w = data_frames(sid, fv.1, d, rem, max);
                            w.subrange(eb, w.len() as int)
                        },
                        _ => Seq::empty(),
                    },
                    FrameEncoderState::EncodingDataPayload => match fv.2 {
                        PayloadV::Data(d) => {
                            let m = min_nat((max - off) as nat, rem);
                            let at = d.len() - rem;
                            d.subrange(at, at + m) + if rem - m == 0 {
                                Seq::empty()
                            } else {
                                data_frames(sid, fv.1, d, (rem - m) as nat, max)
                            }
                        },
                        _ => Seq::empty(),
                    },
                    _ => if is_simple_head(self.state) || is_simple_body(self.state) {
                        self.simple@.subrange(eb, self.simple@.len() as int)
                    } else {
                        Seq::empty()
                    },
                }
            },
        }
    }

    /// The state agrees with the current frame and the positions within it.
    pub closed spec fn wf(&self) -> bool {
        let eb = self.encoded_bytes;
        let fv = match self.current_frame {
            Some(f) => frame_view(f),
            None => (0u32, 0u8, PayloadV::Data(Seq::empty())),
        };
        &&& self.hpack_encoder.wf()
        &&& self.hpack_encoder.to_encode() is None
        &&& self.header_payload_buffer@.len() == block_chunk()
        &&& !is_terminal(self.state) ==> self.current_frame is Some
        &&& (self.state is EncodingHeadersFrame || self.state is EncodingHeadersPayload
            || self.state is EncodingContinuationFrames) ==> {
            &&& fv.2 is Headers
            &&& self.is_end_headers
            &&& self.remaining_header_payload <= block_chunk()
            }
        &&& self.state is EncodingHeadersFrame ==> eb < 9 && self.header_payload_index == 0
        &&& self.state is EncodingHeadersPayload ==> self.header_payload_index < self.remaining_header_payload
        &&& self.state is EncodingContinuationFrames ==> self.header_payload_index == 0 && 0 < self.remaining_header_payload
        &&& self.state is EncodingDataHeader ==> {
            &&& fv.2 matches PayloadV::Data(d) && self.remaining_payload_bytes <= d.len()
            &&& eb < 9
            &&& self.data_offset == 0
            }
        &&& self.state is EncodingDataPayload ==> {
            &&& fv.2 matches PayloadV::Data(d) && self.data_offset + self.remaining_payload_bytes <= d.len()
            &&& (self.data_offset < self.max_frame_size || (self.data_offset == 0 && self.max_frame_size == 0))
            &&& eb == 0
            }
        &&& is_simple_head(self.state) ==> is_simple(fv.2) && self.simple@ == simple_wire(fv) && eb < 9
        &&& is_simple_body(self.state) ==> is_simple(fv.2) && self.simple@ == simple_wire(fv) && 9 <= eb <= self.simple@.len()
        &&& !(self.state is EncodingHeadersPadding)
        &&& !(self.state is EncodingDataPadding)
    }

    /// A size update keeps the current DATA frame's written part within the
    /// new maximum.
    pub open spec fn max_ok(&self, size: usize) -> bool {
        self.stage() is EncodingDataPayload ==> size > self.data_written()
    }

    /// Creates an encoder with the given maximum frame size; header blocks
    /// are compressed with a dynamic table of 4096 octets, Huffman-coded if
    /// `use_huffman`.
    pub fn new(max_frame_size: usize, use_huffman: bool) -> (r: FrameEncoder)
        ensures
            r.wf(),
            r.frame() is None,
            r.max() == max_frame_size,
            r.stage() == FrameEncoderState::Idle,
            r.pending() == Seq::<u8>::empty(),
            r.hpack_entries() == Seq::<(HName, Seq<u8>)>::empty(),
            r.hpack_max() == 4096,
            r.hpack_out() == Seq::<u8>::empty(),
            r.huffman() == use_huffman,
    {
        let mut buffer: Vec<u8> = Vec::new();
        let mut i: usize = 0;
        while i < DEFAULT_MAX_FRAME_SIZE
            invariant
                i <= DEFAULT_MAX_FRAME_SIZE,
                buffer@.len() == i,
            decreases DEFAULT_MAX_FRAME_SIZE - i,
        {
            buffer.push(0);
            i = i + 1;
        }
        let r = FrameEncoder {
            current_frame: None,
            max_frame_size,
            max_header_list_size: usize::MAX,
            hpack_encoder: HpackEncoder::new(DEFAULT_HEADER_TABLE_SIZE, use_huffman),
            state: FrameEncoderState::Idle,
            encoded_bytes: 0,
            data_offset: 0,
            remaining_header_payload: 0,
            remaining_payload_bytes: 0,
            is_end_stream: false,
            is_end_headers: false,
            header_payload_buffer: buffer,
            header_payload_index: 0,
            simple: Vec::new(),
        };
        proof {
            FrameEncoder::lemma_pending_none(r);
        }
        r
    }

    /// The current state.
    pub fn state(&self) -> (r: FrameEncoderState)
        ensures
            r == self.stage(),
    {
        self.state
    }

    /// The maximum frame size.
    pub fn max_frame_size(&self) -> (r: usize)
        ensures
            r == self.max(),
    {
        self.max_frame_size
    }

    /// The frame being encoded, if any.
    pub fn current_frame(&self) -> (r: Option<&Frame>)
        ensures
            self.frame() is None ==> r is None,
            self.frame() matches Some(fv) ==> (r matches Some(f) && frame_view(*f) == fv),
    {
        match &self.current_frame {
            Some(f) => Some(f),
            None => None,
        }
    }
}

/// One step of the encoder: the state stays well formed, octets of the
/// pending stream go into the buffer from `start`, and a step that leaves
/// the state as it was has filled the buffer, unless it is at a
/// CONTINUATION frame.
spec fn step_ok(a: FrameEncoder, b: FrameEncoder, b0: Seq<u8>, b1: Seq<u8>, start: int, k: int) -> bool {
    &&& b.wf()
    &&& b.max_frame_size == a.max_frame_size
    &&& (b.current_frame == a.current_frame || (b.current_frame is None && b.state is HeadersComplete
        && a.current_frame is Some && frame_view(a.current_frame->0).2 is Headers))
    &&& b1.len() == b0.len()
    &&& 0 <= k
    &&& start + k <= b0.len()
    &&& (a.max() > 0 || max_free(a.state)) ==> wrote(a.pending(), b.pending(), b0, b1, start, k)
    &&& max_free(a.state) ==> max_free(b.state)
    &&& b.state == a.state ==> (start + k == b0.len() || a.state is EncodingContinuationFrames)
    &&& (b.state != a.state && k == 0) ==> phase(b.state) < phase(a.state)
}

/// A simple frame's octets start with its 9-octet header.
proof fn lemma_simple_len(fv: FrameV)
    requires
        is_simple(fv.2),
    ensures
        simple_wire(fv).len() >= 9,
{
}

impl FrameEncoder {
    /// The rest of the header block fragment held.
    spec fn hb_rest(&self) -> Seq<u8> {
        self.header_payload_buffer@.subrange(self.header_payload_index as int, self.remaining_header_payload as int)
    }

    fn frame_id_flags(&self) -> (r: (u32, u8))
        requires
            self.current_frame is Some,
        ensures
            r.0 == frame_view(self.current_frame->0).0,
            r.1 == frame_view(self.current_frame->0).1,
    {
        match &self.current_frame {
            Some(f) => (f.stream_id(), f.flags().bits()),
            None => (0, 0),
        }
    }

    /// Writes octets of the held fragment up to `payload_len`.
    fn write_payload(&mut self, buf: &mut [u8], start: usize, payload_len: usize) -> (k: usize)
        requires
            start <= old(buf)@.len(),
            old(self).header_payload_index <= payload_len <= old(self).remaining_header_payload,
            old(self).remaining_header_payload <= old(self).header_payload_buffer@.len(),
        ensures
            k == min_nat((old(buf)@.len() - start) as nat, (payload_len - old(self).header_payload_index) as nat),
            final(self).header_payload_index == old(self).header_payload_index + k,
            wrote(old(self).hb_rest(), final(self).hb_rest(), old(buf)@, final(buf)@, start as int, k as int),
            final(self).current_frame == old(self).current_frame,
            final(self).state == old(self).state,
            final(self).max_frame_size == old(self).max_frame_size,
            final(self).hpack_encoder == old(self).hpack_encoder,
            final(self).header_payload_buffer == old(self).header_payload_buffer,
            final(self).remaining_header_payload == old(self).remaining_header_payload,
            final(self).encoded_bytes == old(self).encoded_bytes,
            final(self).is_end_headers == old(self).is_end_headers,
            final(self).simple == old(self).simple,
            final(self).data_offset == old(self).data_offset,
            final(self).remaining_payload_bytes == old(self).remaining_payload_bytes,
    {
        let hpi = self.header_payload_index;
        let k = copy_out(buf, start, &self.header_payload_buffer.as_slice()[0..payload_len], hpi);
        proof {
            let hb = self.header_payload_buffer@;
            let src = hb.subrange(0, payload_len as int);
            assert(src.subrange(hpi as int, src.len() as int) =~= hb.subrange(hpi as int, payload_len as int));
            assert(src.subrange(hpi + k, src.len() as int) =~= hb.subrange(hpi + k, payload_len as int));
            lemma_wrote_append(
                hb.subrange(hpi as int, payload_len as int),
                hb.subrange(hpi + k, payload_len as int),
                hb.subrange(payload_len as int, self.remaining_header_payload as int),
                old(buf)@, buf@, start as int, k as int,
            );
            assert(hb.subrange(hpi as int, payload_len as int) + hb.subrange(payload_len as int, self.remaining_header_payload as int)
                =~= hb.subrange(hpi as int, self.remaining_header_payload as int));
            assert(hb.subrange(hpi + k, payload_len as int) + hb.subrange(payload_len as int, self.remaining_header_payload as int)
                =~= hb.subrange(hpi + k, self.remaining_header_payload as int));
        }
        self.header_payload_index = hpi + k;
        k
    }

    fn finish_current_frame(&mut self)
        ensures
            final(self).current_frame is None,
            final(self).header_payload_index == 0,
            final(self).remaining_header_payload == 0,
            final(self).encoded_bytes == 0,
            !final(self).is_end_headers,
            final(self).state == old(self).state,
            final(self).max_frame_size == old(self).max_frame_size,
            final(self).hpack_encoder == old(self).hpack_encoder,
            final(self).header_payload_buffer == old(self).header_payload_buffer,
            final(self).simple == old(self).simple,
            final(self).data_offset == old(self).data_offset,
            final(self).remaining_payload_bytes == old(self).remaining_payload_bytes,
    {
        self.header_payload_index = 0;
        self.is_end_stream = false;
        self.current_frame = None;
        self.is_end_headers = false;
        self.remaining_header_payload = 0;
        self.encoded_bytes = 0;
    }

    /// Takes the next fragment of the header block into the buffer.
    fn read_rest_payload(&mut self)
        requires
            old(self).hpack_encoder.wf(),
            old(self).hpack_encoder.to_encode() is None,
            old(self).header_payload_buffer@.len() == block_chunk(),
        ensures
            final(self).hpack_encoder.wf(),
            final(self).hpack_encoder.to_encode() is None,
            final(self).header_payload_buffer@.len() == block_chunk(),
            final(self).header_payload_index == 0,
            final(self).remaining_header_payload == min_nat(old(self).hpack_encoder.out().len(), block_chunk()),
            final(self).header_payload_buffer@.subrange(0, final(self).remaining_header_payload as int)
                == old(self).hpack_encoder.out().subrange(0, final(self).remaining_header_payload as int),
            final(self).hpack_encoder.out() == old(self).hpack_encoder.out().subrange(
                final(self).remaining_header_payload as int, old(self).hpack_encoder.out().len() as int),
            final(self).hpack_encoder.entries() == old(self).hpack_encoder.entries(),
            final(self).hpack_encoder.max() == old(self).hpack_encoder.max(),
            final(self).hpack_encoder.huffman() == old(self).hpack_encoder.huffman(),
            final(self).current_frame == old(self).current_frame,
            final(self).state == old(self).state,
            final(self).max_frame_size == old(self).max_frame_size,
            final(self).encoded_bytes == old(self).encoded_bytes,
            final(self).is_end_headers == old(self).is_end_headers,
            final(self).simple == old(self).simple,
            final(self).data_offset == old(self).data_offset,
            final(self).remaining_payload_bytes == old(self).remaining_payload_bytes,
    {
        self.header_payload_index = 0;
        let payload_size = self.hpack_encoder.encode(self.header_payload_buffer.as_mut_slice());
        self.remaining_header_payload = payload_size;
    }

    /// After a fragment is written: more of it, the end of the block, or the
    /// next fragment in a CONTINUATION frame.
    fn headers_header_status(&mut self)
        requires
            old(self).hpack_encoder.wf(),
            old(self).hpack_encoder.to_encode() is None,
            old(self).header_payload_buffer@.len() == block_chunk(),
            old(self).current_frame matches Some(f) && frame_view(f).2 is Headers,
            old(self).is_end_headers,
            old(self).header_payload_index <= old(self).remaining_header_payload <= block_chunk(),
        ensures
            final(self).wf(),
            final(self).max_frame_size == old(self).max_frame_size,
            final(self).pending() == old(self).hb_rest() + cont_frames(
                frame_view(old(self).current_frame->0).0 as nat, old(self).hpack_encoder.out(), old(self).max()),
            final(self).state is EncodingHeadersPayload <==> old(self).header_payload_index < old(self).remaining_header_payload,
            final(self).state is EncodingHeadersPayload || final(self).state is HeadersComplete
                || final(self).state is EncodingContinuationFrames,
            final(self).current_frame == old(self).current_frame || (final(self).current_frame is None
                && final(self).state is HeadersComplete),
    {
        let ghost sid = frame_view(self.current_frame->0).0 as nat;
        let ghost out = self.hpack_encoder.out();
        let ghost max = self.max();
        proof {
            reveal(FrameEncoder::pending);
        }
        if self.header_payload_index < self.remaining_header_payload {
            self.state = FrameEncoderState::EncodingHeadersPayload;
        } else if self.hpack_encoder.is_finished() {
            self.finish_current_frame();
            self.state = FrameEncoderState::HeadersComplete;
            assert(old(self).hb_rest() =~= Seq::<u8>::empty());
            assert(out =~= Seq::<u8>::empty());
        } else {
            self.read_rest_payload();
            self.state = FrameEncoderState::EncodingContinuationFrames;
            proof {
                assert(old(self).hb_rest() =~= Seq::<u8>::empty());
                let c = min_nat(out.len(), block_chunk());
                assert(self.hb_rest() =~= out.subrange(0, c as int));
            }
        }
    }
}

/// The pending octets of each state.
impl FrameEncoder {
    proof fn lemma_pending_none(s: FrameEncoder)
        requires
            s.current_frame is None || is_terminal(s.state),
        ensures
            s.pending() == Seq::<u8>::empty(),
    {
        reveal(FrameEncoder::pending);
    }

    proof fn lemma_pending_headers_frame(s: FrameEncoder)
        requires
            s.current_frame is Some,
            s.state is EncodingHeadersFrame,
        ensures
            ({
                let fv = frame_view(s.current_frame->0);
                let out = s.hpack_encoder.out();
                let head = frame_head(s.remaining_header_payload as nat, 1, if out.len() == 0 { fv.1 } else { fv.1 & 0xfb }, fv.0 as nat);
                s.pending() == head.subrange(s.encoded_bytes as int, 9) + s.hb_rest() + cont_frames(fv.0 as nat, out, s.max())
            }),
    {
        reveal(FrameEncoder::pending);
    }

    proof fn lemma_pending_headers_payload(s: FrameEncoder)
        requires
            s.current_frame is Some,
            s.state is EncodingHeadersPayload,
        ensures
            s.pending() == s.hb_rest() + cont_frames(frame_view(s.current_frame->0).0 as nat, s.hpack_encoder.out(), s.max()),
    {
        reveal(FrameEncoder::pending);
    }

    proof fn lemma_pending_continuation(s: FrameEncoder)
        requires
            s.current_frame is Some,
            s.state is EncodingContinuationFrames,
        ensures
            ({
                let sid = frame_view(s.current_frame->0).0 as nat;
                let out = s.hpack_encoder.out();
                s.pending() == cont_head(sid, s.remaining_header_payload as nat, out.len() == 0, s.max()) + s.hb_rest()
                    + cont_frames(sid, out, s.max())
            }),
    {
        reveal(FrameEncoder::pending);
    }

    proof fn lemma_pending_data_header(s: FrameEncoder)
        requires
            s.current_frame is Some,
            s.state is EncodingDataHeader,
            frame_view(s.current_frame->0).2 is Data,
        ensures
            ({
                let fv = frame_view(s.current_frame->0);
                let w = data_frames(fv.0 as nat, fv.1, fv.2->Data_0, s.remaining_payload_bytes as nat, s.max());
                s.pending() == w.subrange(s.encoded_bytes as int, w.len() as int)
            }),
    {
        reveal(FrameEncoder::pending);
    }

    proof fn lemma_pending_data_payload(s: FrameEncoder)
        requires
            s.current_frame is Some,
            s.state is EncodingDataPayload,
            frame_view(s.current_frame->0).2 is Data,
        ensures
            ({
                let fv = frame_view(s.current_frame->0);
                let d = fv.2->Data_0;
                let rem = s.remaining_payload_bytes as nat;
                let off = s.data_offset as nat;
                let m = min_nat((s.max() - off) as nat, rem);
                let at = d.len() - rem;
                s.pending() == d.subrange(at, at + m) + if rem - m == 0 {
                    Seq::<u8>::empty()
                } else {
                    data_frames(fv.0 as nat, fv.1, d, (rem - m) as nat, s.max())
                }
            }),
    {
        reveal(FrameEncoder::pending);
    }

    proof fn lemma_pending_simple(s: FrameEncoder)
        requires
            s.current_frame is Some,
            is_simple_head(s.state) || is_simple_body(s.state),
        ensures
            s.pending() == s.simple@.subrange(s.encoded_bytes as int, s.simple@.len() as int),
    {
        reveal(FrameEncoder::pending);
    }
}

impl FrameEncoder {
    fn encode_headers_frame(&mut self, buf: &mut [u8], start: usize) -> (k: usize)
        requires
            old(self).wf(),
            old(self).state is EncodingHeadersFrame,
            start < old(buf)@.len(),
        ensures
            step_ok(*old(self), *final(self), old(buf)@, final(buf)@, start as int, k as int),
    {
        proof {
            FrameEncoder::lemma_pending_headers_frame(*self);
        }
        let ghost p0 = self.pending();
        let ghost b0 = buf@;
        let blen = buf.len();
        let (sid, flags) = self.frame_id_flags();
        let hflags = if self.hpack_encoder.is_finished() { flags } else { flags & 0xfb };
        let head = frame_head_vec(self.remaining_header_payload, 1, hflags, sid);
        let eb = self.encoded_bytes;
        let k1 = copy_out(buf, start, head.as_slice(), eb);
        let ghost rest = self.hb_rest() + cont_frames(sid as nat, self.hpack_encoder.out(), self.max());
        proof {
            assert(head@.len() == 9);
            assert(p0 =~= head@.subrange(eb as int, 9) + rest);
            lemma_wrote_append(head@.subrange(eb as int, 9), head@.subrange(eb + k1, 9), rest, b0, buf@, start as int, k1 as int);
        }
        self.encoded_bytes = eb + k1;
        if self.encoded_bytes < 9 {
            proof {
                FrameEncoder::lemma_pending_headers_frame(*self);
            }
            assert(self.pending() =~= head@.subrange(eb + k1, 9) + rest);
            return k1;
        }
        assert(start + k1 <= buf@.len());
        let ghost p1 = self.pending();
        let ghost b1 = buf@;
        assert(head@.subrange(9, 9) + rest =~= rest);
        let k2 = self.write_payload(buf, start + k1, self.remaining_header_payload);
        let ghost hb_old = self.hb_rest();
        self.headers_header_status();
        proof {
            let conts = cont_frames(sid as nat, old(self).hpack_encoder.out(), old(self).max());
            lemma_wrote_append(old(self).hb_rest(), hb_old, conts, b1, buf@, start + k1, k2 as int);
            assert(rest == old(self).hb_rest() + conts);
            lemma_wrote_compose(p0, rest, self.pending(), b0, b1, buf@, start as int, k1 as int, k2 as int);
        }
        k1 + k2
    }
}

impl FrameEncoder {
    fn encode_headers_payload(&mut self, buf: &mut [u8], start: usize) -> (k: usize)
        requires
            old(self).wf(),
            old(self).state is EncodingHeadersPayload,
            start < old(buf)@.len(),
        ensures
            step_ok(*old(self), *final(self), old(buf)@, final(buf)@, start as int, k as int),
    {
        if buf.len() == start {
            return 0;
        }
        proof {
            FrameEncoder::lemma_pending_headers_payload(*self);
        }
        let ghost sid = frame_view(self.current_frame->0).0 as nat;
        let ghost conts = cont_frames(sid, self.hpack_encoder.out(), self.max());
        let ghost b0 = buf@;
        let k = self.write_payload(buf, start, self.remaining_header_payload);
        let ghost hb1 = self.hb_rest();
        self.headers_header_status();
        proof {
            lemma_wrote_append(old(self).hb_rest(), hb1, conts, b0, buf@, start as int, k as int);
        }
        k
    }

    fn encode_continuation_frames(&mut self, buf: &mut [u8], start: usize) -> (k: usize)
        requires
            old(self).wf(),
            old(self).state is EncodingContinuationFrames,
            start < old(buf)@.len(),
        ensures
            step_ok(*old(self), *final(self), old(buf)@, final(buf)@, start as int, k as int),
    {
        proof {
            FrameEncoder::lemma_pending_continuation(*self);
        }
        let ghost p0 = self.pending();
        let ghost b0 = buf@;
        let blen = buf.len();
        if blen - start < 9 {
            proof {
                lemma_wrote_none(p0, b0, start as int);
            }
            return 0;
        }
        let (sid, _flags) = self.frame_id_flags();
        let rhp = self.remaining_header_payload;
        let continuation_frame_len = if rhp <= self.max_frame_size { rhp } else { self.max_frame_size };
        let new_flags: u8 = if rhp <= self.max_frame_size && self.hpack_encoder.is_finished() && self.is_end_headers {
            END_HEADERS_MASK
        } else {
            0
        };
        let head = frame_head_vec(continuation_frame_len, 9, new_flags, sid);
        let ghost rest = self.hb_rest() + cont_frames(sid as nat, self.hpack_encoder.out(), self.max());
        let k1 = copy_out(buf, start, head.as_slice(), 0);
        proof {
            assert(head@.subrange(0, 9) =~= head@);
            assert(p0 =~= head@ + rest);
            assert(head@.subrange(9, 9) =~= Seq::<u8>::empty());
            lemma_wrote_append(head@, Seq::empty(), rest, b0, buf@, start as int, 9);
            assert(Seq::<u8>::empty() + rest =~= rest);
        }
        let ghost b1 = buf@;
        let k2 = self.write_payload(buf, start + 9, continuation_frame_len);
        let ghost hb1 = self.hb_rest();
        self.headers_header_status();
        proof {
            let conts = cont_frames(sid as nat, old(self).hpack_encoder.out(), old(self).max());
            lemma_wrote_append(old(self).hb_rest(), hb1, conts, b1, buf@, start + 9, k2 as int);
            lemma_wrote_compose(p0, rest, self.pending(), b0, b1, buf@, start as int, 9, k2 as int);
        }
        9 + k2
    }

    fn encode_data_header(&mut self, buf: &mut [u8], start: usize) -> (k: usize)
        requires
            old(self).wf(),
            old(self).state is EncodingDataHeader,
            start < old(buf)@.len(),
        ensures
            step_ok(*old(self), *final(self), old(buf)@, final(buf)@, start as int, k as int),
    {
        proof {
            FrameEncoder::lemma_pending_data_header(*self);
        }
        let ghost p0 = self.pending();
        let ghost b0 = buf@;
        let (sid, flags) = self.frame_id_flags();
        let rem = self.remaining_payload_bytes;
        let max = self.max_frame_size;
        let n = if rem <= max { rem } else { max };
        let fl = if rem <= max { flags } else { flags & 0xfe };
        let head = frame_head_vec(n, 0, fl, sid);
        let eb = self.encoded_bytes;
        let k = copy_out(buf, start, head.as_slice(), eb);
        self.encoded_bytes = eb + k;
        if self.encoded_bytes == 9 {
            self.encoded_bytes = 0;
            self.state = FrameEncoderState::EncodingDataPayload;
        }
        proof {
            if max > 0 {
                let d = frame_view(self.current_frame->0).2->Data_0;
                let at = d.len() - rem;
                let tail = d.subrange(at, at + n) + if rem - n == 0 {
                    Seq::<u8>::empty()
                } else {
                    data_frames(sid as nat, flags, d, (rem - n) as nat, max as nat)
                };
                let w = data_frames(sid as nat, flags, d, rem as nat, max as nat);
                assert(w == head@ + tail);
                assert(head@.len() == 9);
                assert(p0 =~= head@.subrange(eb as int, 9) + tail);
                lemma_wrote_append(head@.subrange(eb as int, 9), head@.subrange(eb + k, 9), tail, b0, buf@, start as int, k as int);
                if eb + k == 9 {
                    FrameEncoder::lemma_pending_data_payload(*self);
                    assert(self.pending() =~= tail);
                    assert(head@.subrange(9, 9) + tail =~= tail);
                } else {
                    FrameEncoder::lemma_pending_data_header(*self);
                    assert(self.pending() =~= head@.subrange(eb + k, 9) + tail);
                }
            }
        }
        k
    }

    #[verifier::rlimit(40)]
    fn encode_data_payload(&mut self, buf: &mut [u8], start: usize) -> (k: usize)
        requires
            old(self).wf(),
            old(self).state is EncodingDataPayload,
            start < old(buf)@.len(),
        ensures
            step_ok(*old(self), *final(self), old(buf)@, final(buf)@, start as int, k as int),
    {
        proof {
            FrameEncoder::lemma_pending_data_payload(*self);
        }
        let ghost p0 = self.pending();
        let ghost b0 = buf@;
        let max = self.max_frame_size;
        let off = self.data_offset;
        let rem = self.remaining_payload_bytes;
        let allow = if max - off <= rem { max - off } else { rem };
        let ghost at: int = 0;
        let k = match &self.current_frame {
            Some(f) => match f.payload() {
                Payload::Data(data_frame) => {
                    let data = data_frame.data();
                    let pos = data.len() - rem;
                    proof {
                        at = pos as int;
                    }
                    copy_out(buf, start, &data.as_slice()[0..pos + allow], pos)
                },
                _ => 0,
            },
            None => 0,
        };
        proof {
            let fv = frame_view(self.current_frame->0);
            let d = fv.2->Data_0;
            assert(at == d.len() - rem);
            let src = d.subrange(0, at + allow);
            assert(src.subrange(at, src.len() as int) =~= d.subrange(at, at + allow));
            assert(src.subrange(at + k, src.len() as int) =~= d.subrange(at + k, at + allow));
            if max > 0 {
                let t = if rem - allow == 0 {
                    Seq::<u8>::empty()
                } else {
                    data_frames(fv.0 as nat, fv.1, d, (rem - allow) as nat, max as nat)
                };
                lemma_wrote_append(d.subrange(at, at + allow), d.subrange(at + k, at + allow), t, b0, buf@, start as int, k as int);
            }
        }
        self.data_offset = off + k;
        self.remaining_payload_bytes = rem - k;
        if self.remaining_payload_bytes == 0 {
            self.data_offset = 0;
            self.state = FrameEncoderState::DataComplete;
            proof {
                FrameEncoder::lemma_pending_none(*self);
                if max > 0 {
                    let fv = frame_view(self.current_frame->0);
                    let d = fv.2->Data_0;
                    assert(d.subrange(at + k, at + allow) + Seq::<u8>::empty() =~= Seq::<u8>::empty());
                }
            }
        } else if self.data_offset == max {
            self.data_offset = 0;
            self.state = FrameEncoderState::EncodingDataHeader;
            proof {
                if max > 0 {
                    let fv = frame_view(self.current_frame->0);
                    let d = fv.2->Data_0;
                    let w = data_frames(fv.0 as nat, fv.1, d, (rem - k) as nat, max as nat);
                    FrameEncoder::lemma_pending_data_header(*self);
                    assert(d.subrange(at + k, at + allow) =~= Seq::<u8>::empty());
                    assert(self.pending() =~= w);
                    assert(Seq::<u8>::empty() + w =~= w);
                }
            }
        } else {
            proof {
                if max > 0 {
                    let fv = frame_view(self.current_frame->0);
                    let d = fv.2->Data_0;
                    assert(k < allow);
                    FrameEncoder::lemma_pending_data_payload(*self);
                    assert(self.pending() =~= d.subrange(at + k, at + allow) + if rem - allow == 0 {
                        Seq::<u8>::empty()
                    } else {
                        data_frames(fv.0 as nat, fv.1, d, (rem - allow) as nat, max as nat)
                    });
                }
            }
        }
        k
    }

    fn encode_simple_head(&mut self, buf: &mut [u8], start: usize, next: FrameEncoderState) -> (k: usize)
        requires
            old(self).wf(),
            is_simple_head(old(self).state),
            is_simple_body(next),
            start < old(buf)@.len(),
        ensures
            step_ok(*old(self), *final(self), old(buf)@, final(buf)@, start as int, k as int),
            final(self).state == old(self).state || final(self).state == next,
    {
        let ghost b0 = buf@;
        proof {
            lemma_simple_len(frame_view(self.current_frame->0));
            FrameEncoder::lemma_pending_simple(*self);
        }
        let eb = self.encoded_bytes;
        let k = copy_out(buf, start, &self.simple.as_slice()[0..9], eb);
        proof {
            let sw = self.simple@;
            let src = sw.subrange(0, 9);
            assert(src.subrange(eb as int, 9) =~= sw.subrange(eb as int, 9));
            assert(src.subrange(eb + k, 9) =~= sw.subrange(eb + k, 9));
            lemma_wrote_append(sw.subrange(eb as int, 9), sw.subrange(eb + k, 9), sw.subrange(9, sw.len() as int), b0, buf@, start as int, k as int);
            assert(sw.subrange(eb as int, 9) + sw.subrange(9, sw.len() as int) =~= sw.subrange(eb as int, sw.len() as int));
            assert(sw.subrange(eb + k, 9) + sw.subrange(9, sw.len() as int) =~= sw.subrange(eb + k, sw.len() as int));
        }
        self.encoded_bytes = eb + k;
        if self.encoded_bytes == 9 {
            self.state = next;
        }
        proof {
            FrameEncoder::lemma_pending_simple(*self);
        }
        k
    }

    fn encode_simple_body(&mut self, buf: &mut [u8], start: usize) -> (k: usize)
        requires
            old(self).wf(),
            is_simple_body(old(self).state),
            start < old(buf)@.len(),
        ensures
            step_ok(*old(self), *final(self), old(buf)@, final(buf)@, start as int, k as int),
    {
        proof {
            FrameEncoder::lemma_pending_simple(*self);
        }
        let slen = self.simple.len();
        let eb = self.encoded_bytes;
        let k = copy_out(buf, start, self.simple.as_slice(), eb);
        self.encoded_bytes = eb + k;
        if self.encoded_bytes == slen {
            self.state = FrameEncoderState::DataComplete;
            proof {
                FrameEncoder::lemma_pending_none(*self);
                assert(self.simple@.subrange(eb + k, slen as int) =~= Seq::<u8>::empty());
            }
        } else {
            proof {
                FrameEncoder::lemma_pending_simple(*self);
            }
        }
        k
    }
}

/// Lengths that a frame's header must be able to count in a `usize`.
pub open spec fn frame_fits(fv: FrameV) -> bool {
    match fv.2 {
        PayloadV::Settings(l) => l.len() * 6 <= usize::MAX,
        PayloadV::Goaway(_, _, d) => d.len() + 8 <= usize::MAX,
        _ => true,
    }
}

/// The octets of a frame with a fixed-size or listed payload.
fn build_simple(frame: &Frame) -> (r: Vec<u8>)
    requires
        frame_fits(frame_view(*frame)),
    ensures
        r@ == simple_wire(frame_view(*frame)),
{
    let sid = frame.stream_id();
    let flags = frame.flags().bits();
    match frame.payload() {
        Payload::Settings(st) => {
            let l = st.get_settings();
            let mut v = frame_head_vec(l.len() * 6, 4, flags, 0);
            let p = settings_vec(l);
            push_bytes(&mut v, p.as_slice());
            v
        },
        Payload::Ping(p) => {
            let mut v = frame_head_vec(8, 6, flags, 0);
            let ghost h = v@;
            let mut i: usize = 0;
            while i < 8
                invariant
                    i <= 8,
                    v@ == h + p.data@.subrange(0, i as int),
                decreases 8 - i,
            {
                v.push(p.data[i]);
                i = i + 1;
                assert(v@ =~= h + p.data@.subrange(0, i as int));
            }
            assert(p.data@.subrange(0, 8) =~= p.data@);
            v
        },
        Payload::Goaway(g) => {
            let debug = g.get_debug_data();
            let mut v = frame_head_vec(debug.len() + 8, 7, flags, sid);
            push_b4(&mut v, g.get_last_stream_id());
            push_b4(&mut v, g.get_error_code());
            push_bytes(&mut v, debug);
            v
        },
        Payload::WindowUpdate(w) => {
            let mut v = frame_head_vec(4, 8, flags, sid);
            push_b4(&mut v, w.get_increment());
            v
        },
        Payload::Priority(pr) => {
            let mut v = frame_head_vec(5, 2, flags, sid);
            let dep = pr.get_stream_dependency();
            let top: u32 = if pr.get_exclusive() { 0x80 } else { 0 };
            v.push((top + (dep / 0x1000000) % 0x80) as u8);
            v.push(((dep / 0x10000) % 0x100) as u8);
            v.push(((dep / 0x100) % 0x100) as u8);
            v.push((dep % 0x100) as u8);
            v.push(pr.get_weight());
            assert(v@ =~= frame_head(5, 2, flags, sid as nat) + priority_bytes(pr.excl(), pr.dependency(), pr.wt()));
            v
        },
        Payload::RstStream(rs) => {
            let mut v = frame_head_vec(4, 3, flags, sid);
            push_b4(&mut v, rs.error_code());
            v
        },
        _ => Vec::new(),
    }
}

fn is_terminal_state(s: FrameEncoderState) -> (r: bool)
    ensures
        r == is_terminal(s),
{
    match s {
        FrameEncoderState::Idle => true,
        FrameEncoderState::HeadersComplete => true,
        FrameEncoderState::DataComplete => true,
        _ => false,
    }
}

impl FrameEncoder {
    /// Sets the frame to encode next: a HEADERS frame's header block is
    /// compressed now (a HEADERS frame without END_HEADERS is refused); DATA
    /// frames are split by the maximum frame size; the other frames are
    /// written by `encode` as they are. A PUSH_PROMISE frame is recorded as
    /// the current frame, but nothing is written for it.
    pub fn set_frame(&mut self, frame: Frame) -> (r: Result<(), FrameEncoderErr>)
        requires
            old(self).wf(),
            frame_fits(frame_view(frame)),
        ensures
            final(self).wf(),
            final(self).max() == old(self).max(),
            final(self).frame() == Some(frame_view(frame)),
            ({
                let fv = frame_view(frame);
                let sid = fv.0 as nat;
                let max = old(self).max();
                match fv.2 {
                    PayloadV::Headers(block) => if fv.1 & END_HEADERS_MASK == END_HEADERS_MASK {
                        let enc = fields_encoding(old(self).hpack_entries(), old(self).hpack_max(), parts_fields(block), old(self).huffman());
                        &&& r is Ok
                        &&& final(self).stage() is EncodingHeadersFrame
                        &&& final(self).pending() == headers_wire(sid, fv.1, update_prefix(old(self).hpack_update()) + enc.0, max)
                        &&& final(self).hpack_entries() == enc.1
                        &&& final(self).hpack_update() is None
                    } else {
                        &&& r matches Err(FrameEncoderErr::HeadersNotEnd)
                        &&& final(self).pending() == Seq::<u8>::empty()
                        &&& final(self).hpack_entries() == old(self).hpack_entries()
                    },
                    PayloadV::Data(d) => {
                        &&& r is Ok
                        &&& final(self).stage() is EncodingDataHeader
                        &&& final(self).pending() == data_frames(sid, fv.1, d, d.len(), max)
                    },
                    PayloadV::PushPromise(_, _) => r is Ok && final(self).pending() == Seq::<u8>::empty(),
                    _ => {
                        &&& r is Ok
                        &&& is_simple_head(final(self).stage())
                        &&& final(self).pending() == simple_wire(fv)
                    },
                }
            }),
    {
        let is_end_stream = frame.flags().is_end_stream();
        let is_end_headers = frame.flags().is_end_headers();
        let ghost fv = frame_view(frame);
        let header_parts = match frame.payload() {
            Payload::Headers(headers) => Some(headers.get_parts()),
            _ => None,
        };
        let data_size = match frame.payload() {
            Payload::Data(data) => Some(data.size()),
            _ => None,
        };
        let is_push_promise = match frame.payload() {
            Payload::PushPromise(_) => true,
            _ => false,
        };
        self.is_end_stream = is_end_stream;
        self.is_end_headers = is_end_headers;
        self.encoded_bytes = 0;
        match header_parts {
            Some(parts) => {
                if !is_end_headers {
                    self.current_frame = Some(frame);
                    if !is_terminal_state(self.state) {
                        self.state = FrameEncoderState::Idle;
                    }
                    proof {
                        FrameEncoder::lemma_pending_none(*self);
                    }
                    return Err(FrameEncoderErr::HeadersNotEnd);
                }
                self.hpack_encoder.set_parts(parts);
                self.header_payload_index = 0;
                let payload_size = self.hpack_encoder.encode(self.header_payload_buffer.as_mut_slice());
                self.remaining_header_payload = payload_size;
                self.state = FrameEncoderState::EncodingHeadersFrame;
                self.current_frame = Some(frame);
                proof {
                    FrameEncoder::lemma_pending_headers_frame(*self);
                    let fr = frame_head(payload_size as nat, 1, if self.hpack_encoder.out().len() == 0 { fv.1 } else { fv.1 & 0xfb }, fv.0 as nat);
                    assert(fr.subrange(0, 9) =~= fr);
                }
                return Ok(());
            },
            None => {},
        }
        match data_size {
            Some(size) => {
                self.data_offset = 0;
                self.remaining_payload_bytes = size;
                self.state = FrameEncoderState::EncodingDataHeader;
                self.current_frame = Some(frame);
                proof {
                    FrameEncoder::lemma_pending_data_header(*self);
                    let d = fv.2->Data_0;
                    let w = data_frames(fv.0 as nat, fv.1, d, d.len(), self.max());
                    assert(w.subrange(0, w.len() as int) =~= w);
                }
                return Ok(());
            },
            None => {},
        }
        if is_push_promise {
            self.current_frame = Some(frame);
            if !is_terminal_state(self.state) {
                self.state = FrameEncoderState::Idle;
            }
            proof {
                FrameEncoder::lemma_pending_none(*self);
            }
            return Ok(());
        }
        self.simple = build_simple(&frame);
        self.state = match frame.payload() {
            Payload::Settings(_) => FrameEncoderState::EncodingSettingsFrame,
            Payload::Goaway(_) => FrameEncoderState::EncodingGoawayFrame,
            Payload::WindowUpdate(_) => FrameEncoderState::EncodingWindowUpdateFrame,
            Payload::Priority(_) => FrameEncoderState::EncodingPriorityFrame,
            Payload::RstStream(_) => FrameEncoderState::EncodingRstStreamFrame,
            _ => FrameEncoderState::EncodingPingFrame,
        };
        self.current_frame = Some(frame);
        proof {
            FrameEncoder::lemma_pending_simple(*self);
            lemma_simple_len(fv);
            assert(self.simple@.subrange(0, self.simple@.len() as int) =~= self.simple@);
        }
        Ok(())
    }

    /// Writes octets of the current frame into `buf`, as many as fit, and
    /// returns how many; writing stops early only at the start of a
    /// CONTINUATION frame, which needs room for its 9-octet header.
    pub fn encode(&mut self, buf: &mut [u8]) -> (r: Result<usize, FrameEncoderErr>)
        requires
            old(self).wf(),
        ensures
            final(self).wf(),
            final(self).max() == old(self).max(),
            r matches Ok(n) && n <= old(buf)@.len(),
            final(buf)@.len() == old(buf)@.len(),
            (old(self).max() > 0 || max_free(old(self).stage())) ==> (r matches Ok(n) && wrote(old(self).pending(), final(self).pending(), old(buf)@, final(buf)@, 0, n as int)
                && (n == min_nat(old(buf)@.len(), old(self).pending().len()) || final(self).stage() is EncodingContinuationFrames)),
            final(self).frame() == old(self).frame() || ((old(self).frame() matches Some(fv) && fv.2 is Headers)
                && final(self).frame() is None && final(self).stage() is HeadersComplete),
            final(self).stage() is EncodingContinuationFrames ==> (final(self).frame() matches Some(fv) && fv.2 is Headers),
    {
        let ghost p0 = self.pending();
        let ghost b0 = buf@;
        proof {
            lemma_wrote_none(p0, b0, 0);
        }
        let mut written: usize = 0;
        let mut done = false;
        while !done && written < buf.len()
            invariant
                self.wf(),
                self.max_frame_size == old(self).max_frame_size,
                self.current_frame == old(self).current_frame || (self.current_frame is None && self.state is HeadersComplete
                    && old(self).current_frame is Some && frame_view(old(self).current_frame->0).2 is Headers),
                written <= buf@.len(),
                buf@.len() == b0.len(),
                b0 == old(buf)@,
                p0 == old(self).pending(),
                (old(self).max() > 0 || max_free(old(self).state)) ==> wrote(p0, self.pending(), b0, buf@, 0, written as int),
                max_free(old(self).state) ==> max_free(self.state),
                done ==> (self.pending().len() == 0 || written == buf@.len() || self.state is EncodingContinuationFrames),
            decreases buf@.len() - written, (if done { 0int } else { 1int }), phase(self.state),
        {
            if is_terminal_state(self.state) {
                proof {
                    FrameEncoder::lemma_pending_none(*self);
                }
                done = true;
            } else {
                let before = self.state;
                let ghost sp = *self;
                let ghost bp = buf@;
                let k = match self.state {
                    FrameEncoderState::EncodingHeadersFrame => self.encode_headers_frame(buf, written),
                    FrameEncoderState::EncodingHeadersPayload => self.encode_headers_payload(buf, written),
                    FrameEncoderState::EncodingContinuationFrames => self.encode_continuation_frames(buf, written),
                    FrameEncoderState::EncodingDataHeader => self.encode_data_header(buf, written),
                    FrameEncoderState::EncodingDataPayload => self.encode_data_payload(buf, written),
                    FrameEncoderState::EncodingSettingsFrame => self.encode_simple_head(
                        buf,
                        written,
                        FrameEncoderState::EncodingSettingsPayload,
                    ),
                    FrameEncoderState::EncodingGoawayFrame => self.encode_simple_head(
                        buf,
                        written,
                        FrameEncoderState::EncodingGoawayPayload,
                    ),
                    FrameEncoderState::EncodingWindowUpdateFrame => self.encode_simple_head(
                        buf,
                        written,
                        FrameEncoderState::EncodingWindowUpdatePayload,
                    ),
                    FrameEncoderState::EncodingPriorityFrame => self.encode_simple_head(
                        buf,
                        written,
                        FrameEncoderState::EncodingPriorityPayload,
                    ),
                    FrameEncoderState::EncodingRstStreamFrame => self.encode_simple_head(
                        buf,
                        written,
                        FrameEncoderState::EncodingRstStreamPayload,
                    ),
                    FrameEncoderState::EncodingPingFrame => self.encode_simple_head(
                        buf,
                        written,
                        FrameEncoderState::EncodingPingPayload,
                    ),
                    _ => self.encode_simple_body(buf, written),
                };
                proof {
                    if old(self).max() > 0 || max_free(old(self).state) {
                        lemma_wrote_compose(p0, sp.pending(), self.pending(), b0, bp, buf@, 0, written as int, k as int);
                    }
                }
                written = written + k;
                if self.state == before {
                    done = true;
                }
            }
        }
        Ok(written)
    }
}

impl FrameEncoder {
    /// Updates a setting of the current frame when it is a SETTINGS frame:
    /// replaces the first setting with the same identifier, or appends it;
    /// octets not yet written follow the updated settings.
    #[verifier::rlimit(30)]
    pub fn update_setting(&mut self, setting: Setting)
        requires
            old(self).wf(),
            old(self).frame() matches Some(fv) && fv.2 matches PayloadV::Settings(l) ==> (l.len() + 1) * 6 <= usize::MAX,
        ensures
            final(self).wf(),
            final(self).max() == old(self).max(),
            final(self).stage() == old(self).stage(),
            final(self).frame() == match old(self).frame() {
                Some((sid, fl, PayloadV::Settings(l))) => Some((sid, fl, PayloadV::Settings(settings_updated(l, setting)))),
                other => other,
            },
            ({
                let old_fv = old(self).frame()->0;
                if old(self).frame() is Some && old_fv.2 is Settings && (is_simple_head(old(self).stage())
                    || is_simple_body(old(self).stage())) {
                    let w = simple_wire(final(self).frame()->0);
                    final(self).pending() == w.subrange(
                        simple_wire(old_fv).len() - old(self).pending().len(), w.len() as int)
                } else {
                    final(self).pending() == old(self).pending()
                }
            }),
    {
        let ghost s0 = *self;
        proof {
            if is_simple_head(self.state) || is_simple_body(self.state) {
                FrameEncoder::lemma_pending_simple(*self);
            } else if is_terminal(self.state) {
                FrameEncoder::lemma_pending_none(*self);
            }
        }
        let taken = self.current_frame.take();
        match taken {
            Some(mut frame) => {
                let ghost fv0 = frame_view(frame);
                proof {
                    if fv0.2 is Settings {
                        lemma_first_setting_bounds(fv0.2->Settings_0, setting_id(setting), 0);
                    }
                }
                let is_settings = match frame.payload_mut() {
                    Payload::Settings(settings) => {
                        settings.update_setting(setting);
                        true
                    },
                    _ => false,
                };
                if is_settings {
                    self.simple = build_simple(&frame);
                }
                self.current_frame = Some(frame);
                proof {
                    if is_settings {
                        let l = fv0.2->Settings_0;
                        let l2 = settings_updated(l, setting);
                        assert(l2.len() >= l.len());
                        if is_simple_head(self.state) || is_simple_body(self.state) {
                            FrameEncoder::lemma_pending_simple(*self);
                        } else {
                            FrameEncoder::lemma_pending_none(*self);
                        }
                        lemma_settings_bytes_len(l);
                        lemma_settings_bytes_len(l2);
                    } else {
                        assert(frame_view(self.current_frame->0) == fv0);
                        if is_simple_head(self.state) || is_simple_body(self.state) {
                            FrameEncoder::lemma_pending_simple(*self);
                        } else if is_terminal(self.state) {
                            FrameEncoder::lemma_pending_none(*self);
                        } else if self.state is EncodingDataHeader {
                            FrameEncoder::lemma_pending_data_header(*self);
                            FrameEncoder::lemma_pending_data_header(s0);
                        } else if self.state is EncodingDataPayload {
                            FrameEncoder::lemma_pending_data_payload(*self);
                            FrameEncoder::lemma_pending_data_payload(s0);
                        } else if self.state is EncodingHeadersFrame {
                            FrameEncoder::lemma_pending_headers_frame(*self);
                            FrameEncoder::lemma_pending_headers_frame(s0);
                        } else if self.state is EncodingHeadersPayload {
                            FrameEncoder::lemma_pending_headers_payload(*self);
                            FrameEncoder::lemma_pending_headers_payload(s0);
                        } else if self.state is EncodingContinuationFrames {
                            FrameEncoder::lemma_pending_continuation(*self);
                            FrameEncoder::lemma_pending_continuation(s0);
                        }
                    }
                }
            },
            None => {},
        }
    }

    /// Sets the maximum frame size; a DATA frame being written keeps the
    /// octets it has.
    pub fn update_max_frame_size(&mut self, size: usize)
        requires
            old(self).wf(),
            old(self).max_ok(size),
        ensures
            final(self).wf(),
            final(self).max() == size,
            final(self).frame() == old(self).frame(),
            final(self).stage() == old(self).stage(),
            final(self).hpack_out() == old(self).hpack_out(),
            final(self).hpack_entries() == old(self).hpack_entries(),
            !(old(self).stage() is EncodingDataHeader || old(self).stage() is EncodingDataPayload
                || old(self).stage() is EncodingHeadersFrame || old(self).stage() is EncodingHeadersPayload
                || old(self).stage() is EncodingContinuationFrames) ==> final(self).pending() == old(self).pending(),
    {
        proof {
            reveal(FrameEncoder::pending);
        }
        self.max_frame_size = size;
    }

    /// Sets the maximum HPACK dynamic table size: entries that no longer
    /// fit are evicted, and the next header block starts with a dynamic
    /// table size update announcing it.
    pub fn update_header_table_size(&mut self, size: usize)
        requires
            old(self).wf(),
        ensures
            final(self).wf(),
            final(self).hpack_max() == size,
            final(self).hpack_entries() == evict(old(self).hpack_entries(), size as nat),
            final(self).hpack_update() == Some(size as nat),
            final(self).hpack_out() == old(self).hpack_out(),
            final(self).huffman() == old(self).huffman(),
            final(self).pending() == old(self).pending(),
            final(self).frame() == old(self).frame(),
            final(self).stage() == old(self).stage(),
            final(self).max() == old(self).max(),
            final(self).header_list_max() == old(self).header_list_max(),
    {
        proof {
            reveal(FrameEncoder::pending);
        }
        self.hpack_encoder.update_max_dynamic_table_size(size)
    }

    /// Records a new maximum header list size; nothing is checked against it.
    pub(crate) fn update_max_header_list_size(&mut self, size: usize)
        requires
            old(self).wf(),
        ensures
            final(self).wf(),
            final(self).pending() == old(self).pending(),
            final(self).frame() == old(self).frame(),
            final(self).stage() == old(self).stage(),
            final(self).max() == old(self).max(),
            final(self).hpack_entries() == old(self).hpack_entries(),
            final(self).hpack_out() == old(self).hpack_out(),
            final(self).header_list_max() == size,
    {
        proof {
            reveal(FrameEncoder::pending);
        }
        self.max_header_list_size = size;
    }
}

} // verus!
