//! Frames written by the frame encoder, read back by the frame decoder.
use vstd::prelude::*;
use crate::h2::decoder::{
    after_frame, be32, breaks_block, complete, continuation_step, no_cont, prepend, data_step, decode_steps, goaway_step, has_flag, headers_step,
    hp_decode, hp_finish, parse_header, payload_step, ping_step, priority_step, reset_step, setting_at, settings_prefix, settings_step, stream_id_at,
    u32_at, window_update_step, DState, FrameHeader, KindV,
};
use crate::h2::encoder::{
    b2, b3, b4, block_chunk, cont_frames, cont_head, data_frames, frame_head, headers_wire, min_nat, priority_bytes, setting_value,
    settings_bytes, simple_wire,
};
use crate::h2::hpack::encoder::{fields_encoding, parts_fields};
use crate::h2::hpack::readback::{
    block_ok, block_state, lemma_block_readback, lemma_parts_fields_read_back, lemma_sent_fields_are_fields,
    parts_after, sent_fields,
};
use crate::h2::hpack::decoder::{line_size, DecView};
use crate::h2::hpack::fragments::{end_of, fields_before, lemma_fragment_end, lemma_fragment_readback, lemma_fragment_start};
use crate::headers::names_unique;
use crate::bytes::lower_seq;
use crate::h2::hpack::table::HName;
use crate::h2::parts::{empty_parts, PartsView};
use crate::h2::error::{ErrorCode, H2Error};
use crate::h2::frame::{
    setting_id, FrameV, PayloadV, Setting, ACK_MASK, END_HEADERS_MASK, END_STREAM_MASK, HEADERS_PRIORITY_MASK, PADDED_MASK,
};

verus! {

/// The base-256 digits of a number below 2^32.
proof fn lemma_digits(n: int)
    requires
        0 <= n < 0x1_0000_0000,
    ensures
        ((n / 0x1000000) % 0x100) * 0x1000000 + ((n / 0x10000) % 0x100) * 0x10000 + ((n / 0x100) % 0x100) * 0x100
            + n % 0x100 == n,
        n / 0x1000000 < 0x100,
        n < 0x8000_0000 ==> n / 0x1000000 < 0x80,
{
    let r1 = n / 0x100;
    let r2 = n / 0x10000;
    let r3 = n / 0x1000000;
    vstd::arithmetic::div_mod::lemma_div_denominator(n, 0x100, 0x100);
    vstd::arithmetic::div_mod::lemma_div_denominator(n, 0x10000, 0x100);
    vstd::arithmetic::div_mod::lemma_fundamental_div_mod(n, 0x100);
    vstd::arithmetic::div_mod::lemma_fundamental_div_mod(r1, 0x100);
    vstd::arithmetic::div_mod::lemma_fundamental_div_mod(r2, 0x100);
    vstd::arithmetic::div_mod::lemma_fundamental_div_mod(n, 0x1000000);
    vstd::arithmetic::div_mod::lemma_small_mod(r3 as nat, 0x100);
}

/// The base-256 digits of a number below 2^24.
proof fn lemma_digits3(n: int)
    requires
        0 <= n < 0x100_0000,
    ensures
        ((n / 0x10000) % 0x100) * 0x10000 + ((n / 0x100) % 0x100) * 0x100 + n % 0x100 == n,
{
    let r1 = n / 0x100;
    let r2 = n / 0x10000;
    vstd::arithmetic::div_mod::lemma_div_denominator(n, 0x100, 0x100);
    vstd::arithmetic::div_mod::lemma_fundamental_div_mod(n, 0x100);
    vstd::arithmetic::div_mod::lemma_fundamental_div_mod(r1, 0x100);
    vstd::arithmetic::div_mod::lemma_fundamental_div_mod(n, 0x10000);
    vstd::arithmetic::div_mod::lemma_small_mod(r2 as nat, 0x100);
}

/// Four octets written big-endian read back as the same 32-bit value.
proof fn lemma_b4_u32(n: u32)
    ensures
        u32_at(b4(n as nat), 0) == n,
{
    lemma_digits(n as int);
}

/// Four octets of a 31-bit value read back as the same stream identifier.
proof fn lemma_b4_sid(n: u32)
    requires
        n < 0x8000_0000,
    ensures
        stream_id_at(b4(n as nat), 0) == n,
{
    lemma_digits(n as int);
    let a: u8 = ((n / 0x1000000) % 0x100) as u8;
    assert(a < 0x80);
    assert(a & 0x7f == a) by (bit_vector)
        requires
            a < 0x80;
}

/// A frame header written for a payload of `len` octets reads back as that
/// header, or as a FRAME_SIZE_ERROR above the largest payload accepted.
proof fn lemma_head_readback(len: u32, t: u8, flags: u8, sid: u32, max: u32)
    requires
        len < 0x100_0000,
        sid < 0x8000_0000,
    ensures
        parse_header(frame_head(len as nat, t, flags, sid as nat), max) == if len > max {
            Err::<FrameHeader, H2Error>(H2Error::ConnectionError(ErrorCode::FrameSizeError))
        } else {
            Ok::<FrameHeader, H2Error>(FrameHeader { stream_id: sid, flags, frame_type: t, payload_length: len as usize })
        },
{
    let hb = frame_head(len as nat, t, flags, sid as nat);
    lemma_digits3(len as int);
    lemma_b4_sid(sid);
    assert(hb.subrange(5, 9) =~= b4(sid as nat));
    assert(stream_id_at(hb, 5) == stream_id_at(b4(sid as nat), 0));
}

/// A decoder state between frames: no header or payload octets pending and
/// no header block open.
pub open spec fn between_frames(s: DState) -> bool {
    &&& !s.payload_stage
    &&& s.buf.len() == 0
    &&& s.cont.3
}

/// One whole frame, header then payload, read from between frames: the
/// decoder ends in the state the payload leaves, between frames.
proof fn lemma_one_frame_to(s: DState, len: u32, t: u8, flags: u8, sid: u32, payload: Seq<u8>, k: KindV, s2: DState)
    requires
        between_frames(s),
        len < 0x100_0000,
        sid < 0x8000_0000,
        len <= s.max_frame_size,
        payload.len() == len,
        payload_step(
            DState { payload_stage: true, buf: Seq::empty(), header: FrameHeader { stream_id: sid, flags, frame_type: t, payload_length: len as usize }, ..s },
            payload,
        ) == Ok::<(DState, KindV), H2Error>((s2, k)),
    ensures
        decode_steps(s, frame_head(len as nat, t, flags, sid as nat) + payload) == Ok::<(DState, Seq<KindV>), H2Error>((after_frame(s2), seq![k])),
{
    let input = frame_head(len as nat, t, flags, sid as nat) + payload;
    let h = FrameHeader { stream_id: sid, flags, frame_type: t, payload_length: len as usize };
    let s1 = DState { payload_stage: true, buf: Seq::empty(), header: h, ..s };
    lemma_head_readback(len, t, flags, sid, s.max_frame_size);
    assert(s.buf + input.subrange(0, 9) =~= frame_head(len as nat, t, flags, sid as nat));
    let rest = input.subrange(9, input.len() as int);
    assert(rest =~= payload);
    assert(!breaks_block(s1));
    assert(s1.buf + rest.subrange(0, len as int) =~= payload);
    let empty = rest.subrange(len as int, rest.len() as int);
    assert(empty =~= Seq::<u8>::empty());
    let s3 = after_frame(s2);
    assert(DState { buf: s3.buf + empty, ..s3 } =~= s3);
    assert(decode_steps(s3, empty) == Ok::<(DState, Seq<KindV>), H2Error>((s3, Seq::<KindV>::empty())));
    assert(decode_steps(s1, rest) == Ok::<(DState, Seq<KindV>), H2Error>((s3, seq![k] + Seq::<KindV>::empty())));
    assert(seq![k] + Seq::<KindV>::empty() =~= seq![k]);
}

/// One whole frame, header then payload, read from between frames.
proof fn lemma_one_frame(s: DState, len: u32, t: u8, flags: u8, sid: u32, payload: Seq<u8>, k: KindV)
    requires
        between_frames(s),
        len < 0x100_0000,
        sid < 0x8000_0000,
        len <= s.max_frame_size,
        payload.len() == len,
        payload_step(
            DState { payload_stage: true, buf: Seq::empty(), header: FrameHeader { stream_id: sid, flags, frame_type: t, payload_length: len as usize }, ..s },
            payload,
        ) matches Ok((s2, k2)) && k2 == k && after_frame(s2) == after_frame(s),
    ensures
        decode_steps(s, frame_head(len as nat, t, flags, sid as nat) + payload) == Ok::<(DState, Seq<KindV>), H2Error>((after_frame(s), seq![k])),
{
    let input = frame_head(len as nat, t, flags, sid as nat) + payload;
    let h = FrameHeader { stream_id: sid, flags, frame_type: t, payload_length: len as usize };
    let s1 = DState { payload_stage: true, buf: Seq::empty(), header: h, ..s };
    lemma_head_readback(len, t, flags, sid, s.max_frame_size);
    assert(s.buf + input.subrange(0, 9) =~= frame_head(len as nat, t, flags, sid as nat));
    let rest = input.subrange(9, input.len() as int);
    assert(rest =~= payload);
    assert(!breaks_block(s1));
    assert(s1.buf + rest.subrange(0, len as int) =~= payload);
    let s2 = payload_step(s1, payload)->Ok_0.0;
    let empty = rest.subrange(len as int, rest.len() as int);
    assert(empty =~= Seq::<u8>::empty());
    let s3 = after_frame(s2);
    assert(DState { buf: s3.buf + empty, ..s3 } =~= s3);
    assert(decode_steps(s3, empty) == Ok::<(DState, Seq<KindV>), H2Error>((s3, Seq::<KindV>::empty())));
    assert(decode_steps(s1, rest) == Ok::<(DState, Seq<KindV>), H2Error>((s3, seq![k] + Seq::<KindV>::empty())));
    assert(seq![k] + Seq::<KindV>::empty() =~= seq![k]);
}

/// A setting that the decoder accepts as it is: an initial window size
/// within 31 bits and a largest frame size from 2^14 to 2^24 - 1.
pub open spec fn setting_valid(st: Setting) -> bool {
    match st {
        Setting::InitialWindowSize(v) => v <= 0x7fff_ffff,
        Setting::MaxFrameSize(v) => 16384 <= v <= 16777215,
        _ => true,
    }
}

/// The control frames the encoder writes and the decoder reads back as
/// they were: SETTINGS on stream 0 with valid settings and, with the ACK
/// flag, none; PING on stream 0 with eight octets, RST_STREAM and PRIORITY
/// on a stream other than 0, WINDOW_UPDATE with an increment other than 0,
/// GOAWAY on stream 0; identifiers, increments and dependencies within 31
/// bits, and a payload within the decoder's limit `max`.
pub open spec fn control_frame_ok(f: FrameV, max: u32) -> bool {
    match f.2 {
        PayloadV::Settings(l) => {
            &&& f.0 == 0
            &&& forall|i: int| 0 <= i < l.len() ==> setting_valid(#[trigger] l[i])
            &&& l.len() * 6 <= max
            &&& l.len() * 6 < 0x100_0000
            &&& has_flag(f.1, ACK_MASK) ==> l.len() == 0
        },
        PayloadV::Ping(d) => f.0 == 0 && d.len() == 8 && 8 <= max,
        PayloadV::RstStream(code) => 0 < f.0 < 0x8000_0000 && 4 <= max,
        PayloadV::WindowUpdate(inc) => f.0 < 0x8000_0000 && 0 < inc < 0x8000_0000 && 4 <= max,
        PayloadV::Goaway(code, last, debug) => f.0 == 0 && last < 0x8000_0000 && debug.len() + 8 <= max && debug.len() + 8 < 0x100_0000,
        PayloadV::Priority(e, d, w) => 0 < f.0 < 0x8000_0000 && d < 0x8000_0000 && 5 <= max,
        _ => false,
    }
}

/// The payload decoding of the control frame types.
proof fn lemma_payload_dispatch(s: DState, p: Seq<u8>)
    ensures
        s.header.frame_type == 0 ==> payload_step(s, p) == data_step(s, p),
        s.header.frame_type == 1 ==> payload_step(s, p) == headers_step(s, p),
        s.header.frame_type == 2 ==> payload_step(s, p) == priority_step(s, p),
        s.header.frame_type == 3 ==> payload_step(s, p) == reset_step(s, p),
        s.header.frame_type == 4 ==> payload_step(s, p) == settings_step(s, p),
        s.header.frame_type == 6 ==> payload_step(s, p) == ping_step(s, p),
        s.header.frame_type == 7 ==> payload_step(s, p) == goaway_step(s, p),
        s.header.frame_type == 8 ==> payload_step(s, p) == window_update_step(s, p),
        s.header.frame_type == 9 ==> payload_step(s, p) == continuation_step(s, p),
{
    reveal(payload_step);
}

/// The state while the payload of a frame with header `h` is awaited.
pub open spec fn awaiting(s: DState, h: FrameHeader) -> DState {
    DState { payload_stage: true, buf: Seq::empty(), header: h, ..s }
}

proof fn lemma_ping_readback(s: DState, f: FrameV)
    requires
        between_frames(s),
        f.2 is Ping,
        control_frame_ok(f, s.max_frame_size),
    ensures
        decode_steps(s, simple_wire(f)) == Ok::<(DState, Seq<KindV>), H2Error>((after_frame(s), seq![KindV::Complete(f)])),
{
    let d = f.2->Ping_0;
    let h = FrameHeader { stream_id: 0, flags: f.1, frame_type: 6, payload_length: 8 };
    let s1 = awaiting(s, h);
    assert(after_frame(s1) == after_frame(s));
    lemma_payload_dispatch(s1, d);
    lemma_one_frame(s, 8, 6, f.1, 0, d, KindV::Complete(f));
}

proof fn lemma_reset_readback(s: DState, f: FrameV)
    requires
        between_frames(s),
        f.2 is RstStream,
        control_frame_ok(f, s.max_frame_size),
    ensures
        decode_steps(s, simple_wire(f)) == Ok::<(DState, Seq<KindV>), H2Error>((after_frame(s), seq![KindV::Complete(f)])),
{
    let code = f.2->RstStream_0;
    let h = FrameHeader { stream_id: f.0, flags: f.1, frame_type: 3, payload_length: 4 };
    let s1 = awaiting(s, h);
    assert(after_frame(s1) == after_frame(s));
    lemma_b4_u32(code);
    lemma_payload_dispatch(s1, b4(code as nat));
    lemma_one_frame(s, 4, 3, f.1, f.0, b4(code as nat), KindV::Complete(f));
}

proof fn lemma_window_update_readback(s: DState, f: FrameV)
    requires
        between_frames(s),
        f.2 is WindowUpdate,
        control_frame_ok(f, s.max_frame_size),
    ensures
        decode_steps(s, simple_wire(f)) == Ok::<(DState, Seq<KindV>), H2Error>((after_frame(s), seq![KindV::Complete(f)])),
{
    let inc = f.2->WindowUpdate_0;
    let h = FrameHeader { stream_id: f.0, flags: f.1, frame_type: 8, payload_length: 4 };
    let s1 = awaiting(s, h);
    assert(after_frame(s1) == after_frame(s));
    lemma_b4_sid(inc);
    lemma_payload_dispatch(s1, b4(inc as nat));
    lemma_one_frame(s, 4, 8, f.1, f.0, b4(inc as nat), KindV::Complete(f));
}

proof fn lemma_goaway_readback(s: DState, f: FrameV)
    requires
        between_frames(s),
        f.2 is Goaway,
        control_frame_ok(f, s.max_frame_size),
    ensures
        decode_steps(s, simple_wire(f)) == Ok::<(DState, Seq<KindV>), H2Error>((after_frame(s), seq![KindV::Complete(f)])),
{
    let (code, last, debug) = (f.2->Goaway_0, f.2->Goaway_1, f.2->Goaway_2);
    let len = (debug.len() + 8) as u32;
    let p = b4(last as nat) + b4(code as nat) + debug;
    let h = FrameHeader { stream_id: 0, flags: f.1, frame_type: 7, payload_length: len as usize };
    let s1 = awaiting(s, h);
    assert(after_frame(s1) == after_frame(s));
    lemma_b4_sid(last);
    lemma_b4_u32(code);
    assert(p.subrange(0, 4) =~= b4(last as nat));
    assert(p.subrange(4, 8) =~= b4(code as nat));
    assert(stream_id_at(p, 0) == stream_id_at(b4(last as nat), 0));
    assert(u32_at(p, 4) == u32_at(b4(code as nat), 0));
    assert(p.subrange(8, p.len() as int) =~= debug);
    assert(simple_wire(f) =~= frame_head(len as nat, 7, f.1, 0) + p);
    lemma_payload_dispatch(s1, p);
    lemma_one_frame(s, len, 7, f.1, 0, p, KindV::Complete(f));
}

proof fn lemma_priority_readback(s: DState, f: FrameV)
    requires
        between_frames(s),
        f.2 is Priority,
        control_frame_ok(f, s.max_frame_size),
    ensures
        decode_steps(s, simple_wire(f)) == Ok::<(DState, Seq<KindV>), H2Error>((after_frame(s), seq![KindV::Complete(f)])),
{
    let (e, dep, w) = (f.2->Priority_0, f.2->Priority_1, f.2->Priority_2);
    let p = priority_bytes(e, dep, w);
    let h = FrameHeader { stream_id: f.0, flags: f.1, frame_type: 2, payload_length: 5 };
    let s1 = awaiting(s, h);
    assert(after_frame(s1) == after_frame(s));
    lemma_digits(dep as int);
    let x: u8 = ((dep / 0x1000000) % 0x80) as u8;
    assert(x == ((dep / 0x1000000) % 0x100) as u8);
    if e {
        assert(p[0] == (0x80 + x) as u8);
        assert(((0x80 + x) as u8) & 0x80 == 0x80 && ((0x80 + x) as u8) & 0x7f == x) by (bit_vector)
            requires
                x < 0x80;
    } else {
        assert(p[0] == x);
        assert(x & 0x80 == 0 && x & 0x7f == x) by (bit_vector)
            requires
                x < 0x80;
    }
    assert(stream_id_at(p, 0) == dep);
    lemma_payload_dispatch(s1, p);
    lemma_one_frame(s, 5, 2, f.1, f.0, p, KindV::Complete(f));
}

proof fn lemma_setting_group(st: Setting)
    requires
        setting_valid(st),
    ensures
        setting_at(b2(setting_id(st) as nat) + b4(setting_value(st) as nat), 0)
            == Ok::<Option<Setting>, H2Error>(Some(st)),
{
    let g = b2(setting_id(st) as nat) + b4(setting_value(st) as nat);
    lemma_b4_u32(setting_value(st));
    assert(g.subrange(2, 6) =~= b4(setting_value(st) as nat));
    assert(u32_at(g, 2) == u32_at(b4(setting_value(st) as nat), 0));
    assert(g[0] == 0 && g[1] == setting_id(st));
}

proof fn lemma_settings_prefix_extend(p: Seq<u8>, q: Seq<u8>, k: nat)
    requires
        k * 6 <= p.len(),
    ensures
        settings_prefix(p + q, k) == settings_prefix(p, k),
    decreases k,
{
    if k > 0 {
        lemma_settings_prefix_extend(p, q, (k - 1) as nat);
        let i = (k - 1) * 6;
        assert((p + q).subrange(i, i + 6) =~= p.subrange(i, i + 6));
        assert(setting_at(p + q, i) == setting_at(p, i));
    }
}

proof fn lemma_settings_bytes(l: Seq<Setting>)
    requires
        forall|i: int| 0 <= i < l.len() ==> setting_valid(#[trigger] l[i]),
    ensures
        settings_bytes(l).len() == l.len() * 6,
        settings_prefix(settings_bytes(l), l.len()) == Ok::<Seq<Setting>, H2Error>(l),
    decreases l.len(),
{
    if l.len() > 0 {
        let q = l.drop_last();
        assert forall|i: int| 0 <= i < q.len() implies setting_valid(#[trigger] q[i]) by {
            assert(q[i] == l[i]);
        }
        lemma_settings_bytes(q);
        let p = settings_bytes(q);
        let st = l.last();
        assert(setting_valid(l[l.len() - 1]));
        let g = b2(setting_id(st) as nat) + b4(setting_value(st) as nat);
        assert(settings_bytes(l) =~= p + g);
        lemma_settings_prefix_extend(p, g, q.len());
        lemma_setting_group(st);
        let i = (l.len() - 1) * 6;
        assert((p + g).subrange(i, i + 6) =~= g);
        assert(setting_at(p + g, i) == setting_at(g, 0));
        assert(settings_prefix(p + g, q.len()) == Ok::<Seq<Setting>, H2Error>(q));
        assert(settings_prefix(p + g, l.len()) == Ok::<Seq<Setting>, H2Error>(q.push(st)));
        assert(q.push(st) =~= l);
    } else {
        assert(l =~= Seq::<Setting>::empty());
    }
}

proof fn lemma_settings_readback(s: DState, f: FrameV)
    requires
        between_frames(s),
        f.2 is Settings,
        control_frame_ok(f, s.max_frame_size),
    ensures
        decode_steps(s, simple_wire(f)) == Ok::<(DState, Seq<KindV>), H2Error>((after_frame(s), seq![KindV::Complete(f)])),
{
    let l = f.2->Settings_0;
    lemma_settings_bytes(l);
    let p = settings_bytes(l);
    let len = p.len() as u32;
    let h = FrameHeader { stream_id: 0, flags: f.1, frame_type: 4, payload_length: len as usize };
    let s1 = awaiting(s, h);
    assert(after_frame(s1) == after_frame(s));
    assert(p.len() / 6 == l.len());
    if l.len() == 0 {
        assert(l =~= Seq::<Setting>::empty());
    }
    lemma_payload_dispatch(s1, p);
    assert(settings_step(s1, p) == complete(s1, PayloadV::Settings(l)));
    lemma_one_frame(s, len, 4, f.1, 0, p, KindV::Complete(f));
}

/// A SETTINGS, PING, RST_STREAM, WINDOW_UPDATE, GOAWAY or PRIORITY frame,
/// as the frame encoder writes it, is read back by the frame decoder as
/// that same frame, from any state between frames whose limit admits its
/// payload; the decoder is then between frames again.
pub proof fn lemma_control_frame_readback(s: DState, f: FrameV)
    requires
        between_frames(s),
        control_frame_ok(f, s.max_frame_size),
    ensures
        decode_steps(s, simple_wire(f)) == Ok::<(DState, Seq<KindV>), H2Error>((after_frame(s), seq![KindV::Complete(f)])),
{
    match f.2 {
        PayloadV::Settings(_) => lemma_settings_readback(s, f),
        PayloadV::Ping(_) => lemma_ping_readback(s, f),
        PayloadV::RstStream(_) => lemma_reset_readback(s, f),
        PayloadV::WindowUpdate(_) => lemma_window_update_readback(s, f),
        PayloadV::Goaway(_, _, _) => lemma_goaway_readback(s, f),
        PayloadV::Priority(_, _, _) => lemma_priority_readback(s, f),
        _ => {},
    }
}

/// The frames the decoder reads for the DATA frames that carry the last
/// `rem` octets of `data`: one complete DATA frame for each, with the next
/// at most `max` octets and END_STREAM kept on the last frame only.
pub open spec fn data_items(sid: u32, flags: u8, data: Seq<u8>, rem: nat, max: nat) -> Seq<KindV>
    decreases rem,
{
    if max == 0 {
        Seq::empty()
    } else {
        let n = min_nat(rem, max);
        let f = if rem <= max { flags } else { flags & 0xfe };
        let at = data.len() - rem;
        seq![KindV::Complete((sid, f, PayloadV::Data(data.subrange(at, at + n))))] + if rem - n == 0 {
            Seq::empty()
        } else {
            data_items(sid, flags, data, (rem - n) as nat, max)
        }
    }
}

proof fn lemma_data_frames_from(s: DState, sid: u32, flags: u8, d: Seq<u8>, rem: nat, max: nat)
    requires
        between_frames(s),
        0 < sid < 0x8000_0000,
        0 < max <= s.max_frame_size,
        max < 0x100_0000,
        rem <= d.len(),
        d.len() > 0 ==> !has_flag(flags, PADDED_MASK),
    ensures
        decode_steps(s, data_frames(sid as nat, flags, d, rem, max))
            == Ok::<(DState, Seq<KindV>), H2Error>((after_frame(s), data_items(sid, flags, d, rem, max))),
    decreases rem,
{
    let n = min_nat(rem, max);
    let f: u8 = if rem <= max { flags } else { flags & 0xfe };
    let at = d.len() - rem;
    let chunk = d.subrange(at, at + n);
    let more = if rem - n == 0 { Seq::<u8>::empty() } else { data_frames(sid as nat, flags, d, (rem - n) as nat, max) };
    assert(data_frames(sid as nat, flags, d, rem, max) == frame_head(n, 0, f, sid as nat) + chunk + more);
    let h = FrameHeader { stream_id: sid, flags: f, frame_type: 0, payload_length: n as usize };
    let s1 = awaiting(s, h);
    lemma_payload_dispatch(s1, chunk);
    if n > 0 {
        assert(!has_flag(f, PADDED_MASK)) by (bit_vector)
            requires
                f == flags || f == flags & 0xfe,
                !has_flag(flags, PADDED_MASK),
                PADDED_MASK == 0x08;
        assert(chunk.subrange(0, n as int) =~= chunk);
    } else {
        assert(chunk =~= Seq::<u8>::empty());
    }
    let k = KindV::Complete((sid, f, PayloadV::Data(chunk)));
    assert(data_step(s1, chunk) == complete(s1, PayloadV::Data(chunk)));
    lemma_frame_then(s, n as u32, 0, f, sid, chunk, k, s1, more);
    let s2 = after_frame(s1);
    assert(s2 == after_frame(s));
    if rem - n == 0 {
        assert(more =~= Seq::<u8>::empty());
        assert(DState { buf: s2.buf + more, ..s2 } == s2);
        assert(decode_steps(s2, more) == Ok::<(DState, Seq<KindV>), H2Error>((s2, Seq::<KindV>::empty())));
        assert(seq![k] + Seq::<KindV>::empty() =~= data_items(sid, flags, d, rem, max));
    } else {
        lemma_data_frames_from(s2, sid, flags, d, (rem - n) as nat, max);
        assert(after_frame(s2) == after_frame(s));
    }
}

/// The octets that a list of decoded DATA frames carries, in order.
pub open spec fn data_carried(items: Seq<KindV>) -> Seq<u8>
    decreases items.len(),
{
    if items.len() == 0 {
        Seq::empty()
    } else {
        (match items[0] {
            KindV::Complete((_, _, PayloadV::Data(p))) => p,
            _ => Seq::empty(),
        }) + data_carried(items.drop_first())
    }
}

/// The DATA frames written for the last `rem` octets of `data` with the
/// maximum frame size `max`: as many as it takes to carry them in pieces
/// of `max` (one when there is nothing to carry), each of `max` octets but
/// the last, which has at most `max`; together they carry those octets in
/// order.
pub proof fn lemma_data_items_shape(sid: u32, flags: u8, data: Seq<u8>, rem: nat, max: nat)
    requires
        0 < max,
        rem <= data.len(),
    ensures
        ({
            let items = data_items(sid, flags, data, rem, max);
            &&& items.len() == if rem == 0 { 1 } else { (rem + max - 1) / (max as int) }
            &&& forall|i: int| 0 <= i < items.len() ==> (#[trigger] items[i] matches KindV::Complete((_, _, PayloadV::Data(p)))
                && p.len() <= max && (i + 1 < items.len() ==> p.len() == max))
            &&& data_carried(items) == data.subrange(data.len() - rem, data.len() as int)
        }),
    decreases rem,
{
    let items = data_items(sid, flags, data, rem, max);
    let n = min_nat(rem, max);
    let at = data.len() - rem;
    let chunk = data.subrange(at, at + n);
    if rem - n == 0 {
        assert(items == seq![KindV::Complete((sid, if rem <= max { flags } else { flags & 0xfe }, PayloadV::Data(chunk)))]
            + Seq::<KindV>::empty());
        assert(items.drop_first() =~= Seq::<KindV>::empty());
        assert(data_carried(items) == chunk + data_carried(items.drop_first()));
        assert(chunk + Seq::<u8>::empty() =~= chunk);
        assert(chunk =~= data.subrange(data.len() - rem, data.len() as int));
        if rem > 0 {
            assert((rem + max - 1) / (max as int) == 1) by (nonlinear_arith)
                requires
                    0 < rem <= max,
            ;
        }
    } else {
        let rest = data_items(sid, flags, data, (rem - n) as nat, max);
        lemma_data_items_shape(sid, flags, data, (rem - n) as nat, max);
        assert(n == max);
        assert(items.drop_first() =~= rest);
        assert(data_carried(items) == chunk + data_carried(rest));
        assert(chunk + data.subrange(data.len() - (rem - n), data.len() as int) =~= data.subrange(at, data.len() as int));
        assert((rem + max - 1) / (max as int) == (rem - max + max - 1) / (max as int) + 1) by (nonlinear_arith)
            requires
                rem > max > 0,
        ;
        assert forall|i: int| 0 <= i < items.len() implies (#[trigger] items[i] matches KindV::Complete((_, _, PayloadV::Data(p)))
            && p.len() <= max && (i + 1 < items.len() ==> p.len() == max)) by {
            if i > 0 {
                assert(items[i] == rest[i - 1]);
            }
        }
    }
}

/// A DATA frame as the frame encoder writes it, in frames of at most `max`
/// octets, is read back by the frame decoder from a state between frames,
/// on a stream other than 0 with a 31-bit identifier, without padding
/// (unless empty), when the decoder takes frames of `max` octets: one
/// DATA frame for each frame written, carrying the data's consecutive
/// pieces in order, END_STREAM on the last only; a frame that fits `max`
/// comes back as it was.
pub proof fn lemma_data_frame_readback(s: DState, f: FrameV, max: nat)
    requires
        between_frames(s),
        f.2 is Data,
        0 < f.0 < 0x8000_0000,
        0 < max <= s.max_frame_size,
        max < 0x100_0000,
        f.2->Data_0.len() > 0 ==> !has_flag(f.1, PADDED_MASK),
    ensures
        decode_steps(s, data_frames(f.0 as nat, f.1, f.2->Data_0, f.2->Data_0.len(), max))
            == Ok::<(DState, Seq<KindV>), H2Error>((after_frame(s), data_items(f.0, f.1, f.2->Data_0, f.2->Data_0.len(), max))),
        f.2->Data_0.len() <= max ==> data_items(f.0, f.1, f.2->Data_0, f.2->Data_0.len(), max) == seq![KindV::Complete(f)],
{
    let d = f.2->Data_0;
    lemma_data_frames_from(s, f.0, f.1, d, d.len(), max);
    if d.len() <= max {
        assert(d.subrange(0, d.len() as int) =~= d);
        assert(seq![KindV::Complete(f)] + Seq::<KindV>::empty() =~= seq![KindV::Complete(f)]);
    }
}

/// A HEADERS frame whose header block fits one frame, as the frame encoder
/// writes it (its HPACK encoder holding no earlier octets), is read back by
/// the frame decoder from a state between frames and between header
/// blocks whose HPACK table and limit are the encoder's: on a stream other
/// than 0 with a 31-bit identifier, with END_HEADERS and without padding
/// or priority. The frame read carries the fields that the HPACK decoder
/// reads ([`sent_fields`]); the decoder is then between frames with the
/// encoder's table. When the block's field names are lower case and each
/// occurs once, the frame read carries the block written.
pub proof fn lemma_headers_frame_readback(s: DState, sid: u32, flags: u8, pv: PartsView, huffman: bool, max: nat)
    requires
        between_frames(s),
        s.hpending == Seq::<u8>::empty(),
        s.hpack.2 == empty_parts(),
        s.hpack.3 == 0,
        0 < sid < 0x8000_0000,
        has_flag(flags, END_HEADERS_MASK),
        !has_flag(flags, PADDED_MASK),
        !has_flag(flags, HEADERS_PRIORITY_MASK),
        block_ok(s.hpack, s.hpack.0, s.hpack.1, parts_fields(pv), huffman),
        fields_encoding(s.hpack.0, s.hpack.1, parts_fields(pv), huffman).0.len() <= block_chunk(),
        fields_encoding(s.hpack.0, s.hpack.1, parts_fields(pv), huffman).0.len() <= s.max_frame_size,
    ensures
        ({
            let fs = parts_fields(pv);
            let enc = fields_encoding(s.hpack.0, s.hpack.1, fs, huffman);
            let got = parts_after(empty_parts(), sent_fields(s.hpack.0, s.hpack.1, fs, huffman));
            decode_steps(s, headers_wire(sid as nat, flags, enc.0, max)) == Ok::<(DState, Seq<KindV>), H2Error>((
                after_frame(DState { hpack: (enc.1, s.hpack.1, empty_parts(), 0nat, s.hpack.4), ..s }),
                seq![KindV::Complete((sid, flags, PayloadV::Headers(got)))],
            ))
        }),
        names_unique(pv.1) && (forall|i: int|
            0 <= i < pv.1.len() ==> lower_seq(#[trigger] pv.1[i].0) == pv.1[i].0) ==> parts_after(
            empty_parts(),
            sent_fields(s.hpack.0, s.hpack.1, parts_fields(pv), huffman),
        ) == pv,
{
    let fs = parts_fields(pv);
    let st = s.hpack;
    let enc = fields_encoding(st.0, st.1, fs, huffman);
    let block = enc.0;
    let len = block.len() as u32;
    lemma_block_readback(st, st.0, st.1, fs, huffman);
    reveal(block_state);
    let bst = block_state(st, st.0, st.1, fs, huffman);
    let got = parts_after(empty_parts(), sent_fields(st.0, st.1, fs, huffman));
    assert(bst.2 == got);
    assert(block.subrange(0, block.len() as int) =~= block);
    assert(block.subrange(block.len() as int, block.len() as int) =~= Seq::<u8>::empty());
    assert(cont_frames(sid as nat, Seq::<u8>::empty(), max) =~= Seq::<u8>::empty());
    assert(headers_wire(sid as nat, flags, block, max) =~= frame_head(len as nat, 1, flags, sid as nat) + block);
    let h = FrameHeader { stream_id: sid, flags, frame_type: 1, payload_length: len as usize };
    let s1 = awaiting(s, h);
    lemma_payload_dispatch(s1, block);
    assert(s1.hpending + block.subrange(0, len as int) =~= block);
    let s2 = DState { hpack: bst, hpending: Seq::<u8>::empty(), ..s1 };
    assert(hp_decode(s1, block.subrange(0, len as int)) == Ok::<DState, H2Error>(s2));
    let s3 = DState { hpack: (bst.0, bst.1, empty_parts(), 0nat, bst.4), ..s2 };
    assert(hp_finish(s2) == Ok::<(DState, PartsView), H2Error>((s3, got)));
    assert(headers_step(s1, block) == complete(s3, PayloadV::Headers(got)));
    lemma_one_frame_to(s, len, 1, flags, sid, block, KindV::Complete((sid, flags, PayloadV::Headers(got))), s3);
    assert(after_frame(s3) == after_frame(DState { hpack: (enc.1, s.hpack.1, empty_parts(), 0nat, s.hpack.4), ..s }));
    if names_unique(pv.1) && (forall|i: int|
        0 <= i < pv.1.len() ==> lower_seq(#[trigger] pv.1[i].0) == pv.1[i].0) {
        lemma_parts_fields_read_back(pv);
        if fs.len() == 0 {
            assert(sent_fields(st.0, st.1, fs, huffman) =~= fs);
        } else {
            reveal(block_ok);
            assert(line_size(fs[0].0, fs[0].1) + st.1 <= usize::MAX);
            lemma_sent_fields_are_fields(st.0, st.1, fs, huffman);
        }
    }
}

/// One whole frame, header then payload, read from a state that awaits a
/// frame header, before more input: a frame that does not break an open
/// header block is read, and the decoder goes on with the rest.
proof fn lemma_frame_then(s: DState, len: u32, t: u8, flags: u8, sid: u32, payload: Seq<u8>, k: KindV, s2: DState, more: Seq<u8>)
    requires
        !s.payload_stage,
        s.buf.len() == 0,
        s.cont.3 || (sid == s.cont.2 && t == 9),
        len < 0x100_0000,
        sid < 0x8000_0000,
        len <= s.max_frame_size,
        payload.len() == len,
        payload_step(
            awaiting(s, FrameHeader { stream_id: sid, flags, frame_type: t, payload_length: len as usize }),
            payload,
        ) == Ok::<(DState, KindV), H2Error>((s2, k)),
    ensures
        decode_steps(s, frame_head(len as nat, t, flags, sid as nat) + payload + more) == prepend(
            seq![k],
            decode_steps(after_frame(s2), more),
        ),
{
    let input = frame_head(len as nat, t, flags, sid as nat) + payload + more;
    let h = FrameHeader { stream_id: sid, flags, frame_type: t, payload_length: len as usize };
    let s1 = awaiting(s, h);
    lemma_head_readback(len, t, flags, sid, s.max_frame_size);
    assert(s.buf + input.subrange(0, 9) =~= frame_head(len as nat, t, flags, sid as nat));
    let rest = input.subrange(9, input.len() as int);
    assert(rest =~= payload + more);
    assert(!breaks_block(s1));
    assert(s1.buf + rest.subrange(0, len as int) =~= payload);
    assert(rest.subrange(len as int, rest.len() as int) =~= more);
    assert(decode_steps(s1, rest) == prepend(seq![k], decode_steps(after_frame(s2), more)));
    assert(decode_steps(s, input) == decode_steps(s1, rest));
}

/// The HPACK side of a decoder inside a header block of fields `fs`, sent
/// from the decoder state `st0`, of which the octets up to `c` have come:
/// the fields that end by `c` have been read, and the octets after them
/// are held.
pub open spec fn block_read_to(s: DState, st0: DecView, fs: Seq<(HName, Seq<u8>)>, huffman: bool, c: int) -> bool {
    let e = fields_encoding(st0.0, st0.1, fs, huffman).0;
    let k = fields_before(st0.0, st0.1, fs, huffman, c) as int;
    &&& s.hpack == block_state(st0, st0.0, st0.1, fs.take(k), huffman)
    &&& s.hpending == e.subrange(end_of(st0.0, st0.1, fs, huffman, k), c)
}

/// The next fragment of a header block, up to `c`, read by the HPACK side
/// of the frame decoder.
proof fn lemma_hp_fragment(s: DState, st0: DecView, fs: Seq<(HName, Seq<u8>)>, huffman: bool, c0: int, c: int)
    requires
        block_ok(st0, st0.0, st0.1, fs, huffman),
        0 <= c0 <= c <= fields_encoding(st0.0, st0.1, fs, huffman).0.len(),
        block_read_to(s, st0, fs, huffman, c0),
    ensures
        ({
            let e = fields_encoding(st0.0, st0.1, fs, huffman).0;
            let m = fields_before(st0.0, st0.1, fs, huffman, c) as int;
            hp_decode(s, e.subrange(c0, c)) == Ok::<DState, H2Error>(DState {
                hpack: block_state(st0, st0.0, st0.1, fs.take(m), huffman),
                hpending: e.subrange(end_of(st0.0, st0.1, fs, huffman, m), c),
                ..s
            })
        }),
{
    let es = st0.0;
    let mx = st0.1;
    let e = fields_encoding(es, mx, fs, huffman).0;
    let k = fields_before(es, mx, fs, huffman, c0) as int;
    let m = fields_before(es, mx, fs, huffman, c) as int;
    let pk = end_of(es, mx, fs, huffman, k);
    let pm = end_of(es, mx, fs, huffman, m);
    lemma_fragment_readback(st0, es, mx, fs, huffman, c0, c);
    let all = s.hpending + e.subrange(c0, c);
    assert(all =~= e.subrange(pk, c));
    assert(all.subrange(pm - pk, all.len() as int) =~= e.subrange(pm, c));
}

/// `n` items saying that a header block goes on.
pub open spec fn partials(n: nat) -> Seq<KindV> {
    Seq::new(n, |i: int| KindV::Partial)
}

/// The state after a header block of several frames is complete: between
/// frames, no block open, the HPACK decoder between blocks.
pub open spec fn block_closed(s: DState, hp: DecView) -> DState {
    after_frame(DState { cont: no_cont(), hpack: (hp.0, hp.1, empty_parts(), 0nat, hp.4), hpending: Seq::empty(), ..s })
}

/// The CONTINUATION frames that carry the rest of a header block, from
/// octet `c0` on, read by a decoder inside that block.
#[verifier::rlimit(40)]
proof fn lemma_cont_readback(s: DState, sid: u32, st0: DecView, fs: Seq<(HName, Seq<u8>)>, huffman: bool, c0: int, max: nat)
    requires
        !s.payload_stage,
        s.buf.len() == 0,
        !s.cont.3,
        s.cont.2 == sid,
        s.cont.4 == 0,
        0 < sid < 0x8000_0000,
        block_chunk() <= max,
        block_chunk() <= s.max_frame_size,
        block_ok(st0, st0.0, st0.1, fs, huffman),
        0 <= c0 < fields_encoding(st0.0, st0.1, fs, huffman).0.len(),
        block_read_to(s, st0, fs, huffman, c0),
    ensures
        ({
            let e = fields_encoding(st0.0, st0.1, fs, huffman).0;
            let fin = block_state(st0, st0.0, st0.1, fs, huffman);
            decode_steps(s, cont_frames(sid as nat, e.subrange(c0, e.len() as int), max)) == Ok::<(DState, Seq<KindV>), H2Error>((
                block_closed(s, fin),
                partials(((e.len() - c0 - 1) / 16384) as nat).push(KindV::Complete((sid, s.cont.0, PayloadV::Headers(fin.2)))),
            ))
        }),
    decreases fields_encoding(st0.0, st0.1, fs, huffman).0.len() - c0,
{
    let es = st0.0;
    let mx = st0.1;
    let e = fields_encoding(es, mx, fs, huffman).0;
    let out = e.subrange(c0, e.len() as int);
    let len = min_nat(out.len(), block_chunk());
    let c1 = c0 + len;
    let rest = out.subrange(len as int, out.len() as int);
    let last = rest.len() == 0;
    let fl: u8 = if last { 4 } else { 0 };
    let payload = e.subrange(c0, c1);
    assert(out.subrange(0, len as int) =~= payload);
    assert(rest =~= e.subrange(c1, e.len() as int));
    assert(cont_head(sid as nat, len, last, max) == frame_head(len, 9, fl, sid as nat));
    let more = cont_frames(sid as nat, rest, max);
    assert(cont_frames(sid as nat, out, max) == frame_head(len, 9, fl, sid as nat) + payload + more);
    let h = FrameHeader { stream_id: sid, flags: fl, frame_type: 9, payload_length: len as usize };
    let sa = awaiting(s, h);
    lemma_payload_dispatch(sa, payload);
    lemma_hp_fragment(sa, st0, fs, huffman, c0, c1);
    let m = fields_before(es, mx, fs, huffman, c1) as int;
    let s2 = DState {
        hpack: block_state(st0, es, mx, fs.take(m), huffman),
        hpending: e.subrange(end_of(es, mx, fs, huffman, m), c1),
        ..sa
    };
    assert(hp_decode(sa, payload) == Ok::<DState, H2Error>(s2));
    let fin = block_state(st0, es, mx, fs, huffman);
    if last {
        assert(has_flag(4, END_HEADERS_MASK)) by (bit_vector);
        lemma_fragment_end(st0, es, mx, fs, huffman);
        assert(c1 == e.len());
        assert(s2.hpending =~= Seq::<u8>::empty());
        let s3 = DState { hpack: (fin.0, fin.1, empty_parts(), 0nat, fin.4), ..s2 };
        assert(hp_finish(s2) == Ok::<(DState, PartsView), H2Error>((s3, fin.2)));
        let k = KindV::Complete((sid, s.cont.0, PayloadV::Headers(fin.2)));
        assert(continuation_step(sa, payload) == Ok::<(DState, KindV), H2Error>((DState { cont: no_cont(), ..s3 }, k)));
        lemma_frame_then(s, len as u32, 9, fl, sid, payload, k, DState { cont: no_cont(), ..s3 }, more);
        let sf = after_frame(DState { cont: no_cont(), ..s3 });
        assert(sf == block_closed(s, fin));
        assert(more =~= Seq::<u8>::empty());
        assert(DState { buf: sf.buf + more, ..sf } == sf);
        assert(decode_steps(sf, more) == Ok::<(DState, Seq<KindV>), H2Error>((sf, Seq::<KindV>::empty())));
        assert((e.len() - c0 - 1) / 16384 == 0);
        assert(seq![k] + Seq::<KindV>::empty() =~= partials(0).push(k));
    } else {
        assert(!has_flag(0, END_HEADERS_MASK)) by (bit_vector);
        assert(continuation_step(sa, payload) == Ok::<(DState, KindV), H2Error>((s2, KindV::Partial)));
        lemma_frame_then(s, len as u32, 9, fl, sid, payload, KindV::Partial, s2, more);
        let s4 = after_frame(s2);
        lemma_cont_readback(s4, sid, st0, fs, huffman, c1, max);
        assert(block_closed(s4, fin) == block_closed(s, fin));
        let n1 = ((e.len() - c1 - 1) / 16384) as nat;
        let n0 = ((e.len() - c0 - 1) / 16384) as nat;
        assert(n0 == n1 + 1);
        let k = KindV::Complete((sid, s.cont.0, PayloadV::Headers(fin.2)));
        assert(seq![KindV::Partial] + partials(n1).push(k) =~= partials(n0).push(k));
    }
}

/// A HEADERS frame whose header block is longer than one frame holds, as
/// the frame encoder writes it (its HPACK encoder holding no earlier
/// octets): the first 16384 octets in a HEADERS frame with END_HEADERS
/// cleared, the rest in CONTINUATION frames of at most 16384 octets, the
/// last with END_HEADERS. The frame decoder reads it from a state between
/// frames and between header blocks, with no block promised, whose HPACK
/// table and limit are the encoder's, on a stream other than 0 with a
/// 31-bit identifier, without padding or priority, when both sides take
/// frames of 16384 octets: an item saying the block goes on for each frame
/// but the last, then the frame with the fields that the HPACK decoder
/// reads ([`sent_fields`]) and the flags of the HEADERS frame; the decoder
/// is then between frames with no block open and the encoder's table.
pub proof fn lemma_long_headers_readback(s: DState, sid: u32, flags: u8, pv: PartsView, huffman: bool, max: nat)
    requires
        between_frames(s),
        s.cont.4 == 0,
        s.hpending == Seq::<u8>::empty(),
        s.hpack.2 == empty_parts(),
        s.hpack.3 == 0,
        0 < sid < 0x8000_0000,
        !has_flag(flags, PADDED_MASK),
        !has_flag(flags, HEADERS_PRIORITY_MASK),
        block_ok(s.hpack, s.hpack.0, s.hpack.1, parts_fields(pv), huffman),
        fields_encoding(s.hpack.0, s.hpack.1, parts_fields(pv), huffman).0.len() > block_chunk(),
        block_chunk() <= max,
        block_chunk() <= s.max_frame_size,
    ensures
        ({
            let fs = parts_fields(pv);
            let enc = fields_encoding(s.hpack.0, s.hpack.1, fs, huffman);
            let got = parts_after(empty_parts(), sent_fields(s.hpack.0, s.hpack.1, fs, huffman));
            decode_steps(s, headers_wire(sid as nat, flags, enc.0, max)) == Ok::<(DState, Seq<KindV>), H2Error>((
                block_closed(s, (enc.1, s.hpack.1, empty_parts(), 0nat, s.hpack.4)),
                partials(((enc.0.len() - 1) / 16384) as nat).push(KindV::Complete((sid, flags & 0xfb, PayloadV::Headers(got)))),
            ))
        }),
{
    let fs = parts_fields(pv);
    let st0 = s.hpack;
    let es = st0.0;
    let mx = st0.1;
    let enc = fields_encoding(es, mx, fs, huffman);
    let e = enc.0;
    let c: int = 16384;
    let fl: u8 = flags & 0xfb;
    assert(!has_flag(fl, END_HEADERS_MASK) && !has_flag(fl, PADDED_MASK) && !has_flag(fl, HEADERS_PRIORITY_MASK)) by (bit_vector)
        requires
            fl == flags & 0xfb,
            !has_flag(flags, PADDED_MASK),
            !has_flag(flags, HEADERS_PRIORITY_MASK),
            PADDED_MASK == 0x08,
            HEADERS_PRIORITY_MASK == 0x20,
            END_HEADERS_MASK == 0x04;
    let payload = e.subrange(0, c);
    let rest = e.subrange(c, e.len() as int);
    let more = cont_frames(sid as nat, rest, max);
    assert(headers_wire(sid as nat, flags, e, max) == frame_head(16384, 1, fl, sid as nat) + payload + more);
    let h = FrameHeader { stream_id: sid, flags: fl, frame_type: 1, payload_length: 16384 };
    let sa = awaiting(s, h);
    lemma_payload_dispatch(sa, payload);
    let s2 = DState { cont: (fl, has_flag(fl, END_STREAM_MASK), sid, false, sa.cont.4), ..sa };
    assert(payload.subrange(0, c) =~= payload);
    lemma_fragment_start(st0, es, mx, fs, huffman);
    assert(e.subrange(0, 0) =~= Seq::<u8>::empty());
    assert(block_read_to(s2, st0, fs, huffman, 0));
    lemma_hp_fragment(s2, st0, fs, huffman, 0, c);
    let m = fields_before(es, mx, fs, huffman, c) as int;
    let s3 = DState {
        hpack: block_state(st0, es, mx, fs.take(m), huffman),
        hpending: e.subrange(end_of(es, mx, fs, huffman, m), c),
        ..s2
    };
    assert(headers_step(sa, payload) == Ok::<(DState, KindV), H2Error>((s3, KindV::Partial)));
    lemma_frame_then(s, 16384, 1, fl, sid, payload, KindV::Partial, s3, more);
    let s4 = after_frame(s3);
    lemma_cont_readback(s4, sid, st0, fs, huffman, c, max);
    lemma_block_readback(st0, es, mx, fs, huffman);
    reveal(block_state);
    let fin = block_state(st0, es, mx, fs, huffman);
    assert(block_closed(s4, fin) == block_closed(s, (enc.1, s.hpack.1, empty_parts(), 0nat, s.hpack.4)));
    let got = parts_after(empty_parts(), sent_fields(es, mx, fs, huffman));
    assert(fin.2 == got);
    let k = KindV::Complete((sid, fl, PayloadV::Headers(got)));
    let n1 = ((e.len() - c - 1) / 16384) as nat;
    let n0 = ((e.len() - 1) / 16384) as nat;
    assert(n0 == n1 + 1);
    assert(seq![KindV::Partial] + partials(n1).push(k) =~= partials(n0).push(k));
}

/// Decoding `b` after the outcome `r` of decoding earlier input: an error
/// stays, otherwise the items of `b` follow those already decoded.
pub open spec fn then_decode(r: Result<(DState, Seq<KindV>), H2Error>, b: Seq<u8>) -> Result<(DState, Seq<KindV>), H2Error> {
    match r {
        Ok((s1, k1)) => prepend(k1, decode_steps(s1, b)),
        Err(e) => Err(e),
    }
}

/// Two outcomes of a payload that agree once the frame is done.
pub open spec fn same_outcome(r1: Result<(DState, KindV), H2Error>, r2: Result<(DState, KindV), H2Error>) -> bool {
    match (r1, r2) {
        (Ok((s1, k1)), Ok((s2, k2))) => k1 == k2 && after_frame(s1) == after_frame(s2),
        (Err(e1), Err(e2)) => e1 == e2,
        _ => false,
    }
}

/// A payload's outcome does not depend on the octets the decoder held.
proof fn lemma_payload_buf(s: DState, x: Seq<u8>, p: Seq<u8>)
    ensures
        same_outcome(payload_step(s, p), payload_step(DState { buf: x, ..s }, p)),
{
    reveal(payload_step);
}

proof fn lemma_prepend_assoc(k: Seq<KindV>, r: Result<(DState, Seq<KindV>), H2Error>, b: Seq<u8>)
    ensures
        prepend(k, then_decode(r, b)) == then_decode(prepend(k, r), b),
{
    match r {
        Ok((s1, k1)) => match decode_steps(s1, b) {
            Ok((s2, k2)) => {
                assert(k + (k1 + k2) =~= (k + k1) + k2);
            },
            Err(_) => {},
        },
        Err(_) => {},
    }
}

proof fn lemma_prepend_none(r: Result<(DState, Seq<KindV>), H2Error>)
    ensures
        prepend(Seq::empty(), r) == r,
{
    match r {
        Ok((s1, k1)) => {
            assert(Seq::<KindV>::empty() + k1 =~= k1);
        },
        Err(_) => {},
    }
}

/// Input that comes in two pieces is decoded as it would be in one: the
/// frame decoder, after the first piece, goes on with the second to the
/// same frames, state or error as from the whole input at once.
#[verifier::spinoff_prover]
#[verifier::rlimit(50)]
pub proof fn lemma_decode_in_pieces(s: DState, a: Seq<u8>, b: Seq<u8>)
    ensures
        decode_steps(s, a + b) == then_decode(decode_steps(s, a), b),
    decreases a.len(), (if s.payload_stage { 1int } else { 0int }),
{
    let ab = a + b;
    if !s.payload_stage {
        if s.buf.len() >= 9 {
            let s1 = DState { buf: s.buf + a, ..s };
            assert(s1.buf + b =~= s.buf + ab);
            assert(DState { buf: s1.buf + b, ..s1 } == DState { buf: s.buf + ab, ..s });
            lemma_prepend_none(decode_steps(s1, b));
        } else if a.len() < 9 - s.buf.len() {
            let s1 = DState { buf: s.buf + a, ..s };
            lemma_prepend_none(decode_steps(s1, b));
            assert(s1.buf + b =~= s.buf + ab);
            if ab.len() < 9 - s.buf.len() {
                assert(DState { buf: s1.buf + b, ..s1 } == DState { buf: s.buf + ab, ..s });
            } else {
                let need = 9 - s.buf.len();
                let need1 = 9 - s1.buf.len();
                assert(s.buf + ab.subrange(0, need) =~= s1.buf + b.subrange(0, need1));
                assert(ab.subrange(need, ab.len() as int) =~= b.subrange(need1, b.len() as int));
                match parse_header(s.buf + ab.subrange(0, need), s.max_frame_size) {
                    Ok(h) => {
                        assert(DState { payload_stage: true, buf: Seq::empty(), header: h, ..s } == DState {
                            payload_stage: true,
                            buf: Seq::empty(),
                            header: h,
                            ..s1
                        });
                    },
                    Err(_) => {},
                }
            }
        } else {
            let need = 9 - s.buf.len();
            assert(ab.subrange(0, need) =~= a.subrange(0, need));
            let a2 = a.subrange(need, a.len() as int);
            assert(ab.subrange(need, ab.len() as int) =~= a2 + b);
            match parse_header(s.buf + a.subrange(0, need), s.max_frame_size) {
                Ok(h) => {
                    let s2 = DState { payload_stage: true, buf: Seq::empty(), header: h, ..s };
                    lemma_decode_in_pieces(s2, a2, b);
                },
                Err(_) => {},
            }
        }
    } else if breaks_block(s) {
    } else if a.len() + s.buf.len() < s.header.payload_length {
        let s1 = DState { buf: s.buf + a, ..s };
        lemma_prepend_none(decode_steps(s1, b));
        assert(s1.buf + b =~= s.buf + ab);
        assert(!breaks_block(s1));
        if ab.len() + s.buf.len() < s.header.payload_length {
            assert(DState { buf: s1.buf + b, ..s1 } == DState { buf: s.buf + ab, ..s });
        } else {
            let need: int = s.header.payload_length - s.buf.len();
            let need1: int = s.header.payload_length - s1.buf.len();
            let p = s.buf + ab.subrange(0, need);
            assert(p =~= s1.buf + b.subrange(0, need1));
            assert(ab.subrange(need, ab.len() as int) =~= b.subrange(need1, b.len() as int));
            lemma_payload_buf(s, s1.buf, p);
            assert(s1 == DState { buf: s1.buf, ..s });
        }
    } else {
        let need: int = if s.buf.len() <= s.header.payload_length { s.header.payload_length - s.buf.len() } else { 0 };
        assert(ab.subrange(0, need) =~= a.subrange(0, need));
        let a2 = a.subrange(need, a.len() as int);
        assert(ab.subrange(need, ab.len() as int) =~= a2 + b);
        match payload_step(s, s.buf + a.subrange(0, need)) {
            Ok((s2, k)) => {
                lemma_decode_in_pieces(after_frame(s2), a2, b);
                lemma_prepend_assoc(seq![k], decode_steps(after_frame(s2), a2), b);
            },
            Err(_) => {},
        }
    }
}

/// What a HEADERS payload gives: the same error, or the same HPACK state, the
/// same open block stream and the same frame stream and fields.
pub open spec fn same_block_result(r1: Result<(DState, KindV), H2Error>, r2: Result<(DState, KindV), H2Error>) -> bool {
    match (r1, r2) {
        (Err(e1), Err(e2)) => e1 == e2,
        (Ok((t1, k1)), Ok((t2, k2))) => t1.hpack == t2.hpack && t1.hpending == t2.hpending && t1.cont.2 == t2.cont.2
            && match (k1, k2) {
            (KindV::Partial, KindV::Partial) => true,
            (KindV::Complete(f1), KindV::Complete(f2)) => f1.0 == f2.0 && f1.2 == f2.2,
            _ => false,
        },
        _ => false,
    }
}

/// The payload of a HEADERS frame: the pad length octet where the frame is
/// padded, the priority fields, the header block fragment, the padding.
pub open spec fn headers_payload(padded: bool, prio: Seq<u8>, block: Seq<u8>, pad: Seq<u8>) -> Seq<u8> {
    if padded {
        seq![pad.len() as u8] + prio + block + pad
    } else {
        prio + block
    }
}

/// The priority fields of a HEADERS frame are not part of its header block:
/// a frame with the PRIORITY flag decodes, padded or not, to what the same
/// block gives in a frame without them, with the same error where it fails.
pub proof fn lemma_priority_fields_skipped(s1: DState, s2: DState, prio: Seq<u8>, block: Seq<u8>, pad: Seq<u8>)
    requires
        prio.len() == 5,
        pad.len() < 0x100,
        has_flag(s1.header.flags, HEADERS_PRIORITY_MASK),
        !has_flag(s2.header.flags, HEADERS_PRIORITY_MASK),
        has_flag(s1.header.flags, PADDED_MASK) == has_flag(s2.header.flags, PADDED_MASK),
        has_flag(s1.header.flags, END_HEADERS_MASK) == has_flag(s2.header.flags, END_HEADERS_MASK),
        has_flag(s1.header.flags, END_STREAM_MASK) == has_flag(s2.header.flags, END_STREAM_MASK),
        s1.header.stream_id == s2.header.stream_id,
        s1.header.payload_length == headers_payload(has_flag(s1.header.flags, PADDED_MASK), prio, block, pad).len(),
        s2.header.payload_length == headers_payload(has_flag(s1.header.flags, PADDED_MASK), Seq::empty(), block, pad).len(),
        s1.hpack == s2.hpack,
        s1.hpending == s2.hpending,
        s1.cont == s2.cont,
    ensures
        same_block_result(
            headers_step(s1, headers_payload(has_flag(s1.header.flags, PADDED_MASK), prio, block, pad)),
            headers_step(s2, headers_payload(has_flag(s1.header.flags, PADDED_MASK), Seq::empty(), block, pad)),
        ),
{
    let padded = has_flag(s1.header.flags, PADDED_MASK);
    let p1 = headers_payload(padded, prio, block, pad);
    let p2 = headers_payload(padded, Seq::empty(), block, pad);
    if padded {
        assert(p1[0] == pad.len() as u8);
        assert(p2[0] == pad.len() as u8);
        assert(p1.subrange(6, p1.len() - pad.len()) =~= block);
        assert(p2.subrange(1, p2.len() - pad.len()) =~= block);
    } else {
        assert(p1.subrange(5, p1.len() as int) =~= block);
        assert(p2.subrange(0, p2.len() as int) =~= block);
    }
}

/// The padding of a HEADERS frame is not part of its header block either: a
/// padded frame decodes to what the same block and priority fields give in a
/// frame without padding, with the same error where it fails.
pub proof fn lemma_padding_skipped(s1: DState, s2: DState, prio: Seq<u8>, block: Seq<u8>, pad: Seq<u8>)
    requires
        prio.len() == (if has_flag(s1.header.flags, HEADERS_PRIORITY_MASK) { 5int } else { 0int }),
        pad.len() < 0x100,
        has_flag(s1.header.flags, PADDED_MASK),
        !has_flag(s2.header.flags, PADDED_MASK),
        has_flag(s1.header.flags, HEADERS_PRIORITY_MASK) == has_flag(s2.header.flags, HEADERS_PRIORITY_MASK),
        has_flag(s1.header.flags, END_HEADERS_MASK) == has_flag(s2.header.flags, END_HEADERS_MASK),
        has_flag(s1.header.flags, END_STREAM_MASK) == has_flag(s2.header.flags, END_STREAM_MASK),
        s1.header.stream_id == s2.header.stream_id,
        s1.header.payload_length == headers_payload(true, prio, block, pad).len(),
        s2.header.payload_length == headers_payload(false, prio, block, Seq::empty()).len(),
        s1.hpack == s2.hpack,
        s1.hpending == s2.hpending,
        s1.cont == s2.cont,
    ensures
        same_block_result(
            headers_step(s1, headers_payload(true, prio, block, pad)),
            headers_step(s2, headers_payload(false, prio, block, Seq::empty())),
        ),
{
    let p1 = headers_payload(true, prio, block, pad);
    let p2 = headers_payload(false, prio, block, Seq::empty());
    let k: int = prio.len() as int;
    assert(p1[0] == pad.len() as u8);
    assert(p1.subrange(1 + k, p1.len() - pad.len()) =~= block);
    assert(p2.subrange(k, p2.len() as int) =~= block);
}

} // verus!
