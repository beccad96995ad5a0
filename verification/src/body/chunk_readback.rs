//! Chunked bodies written by `ChunkBody`, read back by `ChunkBodyDecoder`.
use vstd::prelude::*;
use crate::body::chunk::{
    after_chunk, cv, decode_chunks, decode_data, decode_size, decode_size_at, decode_special_char, decode_step, from,
    hex_digit, hex_step, initial_cstate, merged_trailer, next_id, skip_chunk_ext_at, skip_crlf, skip_crlf_at,
    skip_extension, skip_last_crlf, skip_last_crlf_at, decode_trailer_data, decode_trailer_data_at,
    skip_trailer_crlf, skip_trailer_crlf_at, skip_trailer_ext_at, skip_trailer_last_crlf, skip_trailer_last_crlf_at,
    CState, ChunkState, ChunkV, Stage,
};
use crate::body::chunk_body::{chunk_stream, chunks_wire, closing, crlf, hex_bytes};

verus! {

/// The value of a lower-case hexadecimal digit.
pub open spec fn digit_val(b: u8) -> nat {
    if b <= 0x39 { (b - 0x30) as nat } else { (b - 0x57) as nat }
}

/// The value of lower-case hexadecimal digits.
pub open spec fn hex_val(ds: Seq<u8>) -> nat
    decreases ds.len(),
{
    if ds.len() == 0 {
        0
    } else {
        hex_val(ds.drop_last()) * 16 + digit_val(ds.last())
    }
}

/// A lower-case hexadecimal digit.
pub open spec fn is_hex_char(b: u8) -> bool {
    (0x30 <= b <= 0x39) || (0x61 <= b <= 0x66)
}

proof fn lemma_hex_bytes(n: nat)
    ensures
        hex_val(hex_bytes(n)) == n,
        hex_bytes(n).len() >= 1,
        forall|i: int| 0 <= i < hex_bytes(n).len() ==> is_hex_char(#[trigger] hex_bytes(n)[i]),
        n > 0 ==> hex_bytes(n)[0] != 0x30,
    decreases n,
{
    let d = n % 16;
    let c = crate::body::chunk_body::hex_digit(d);
    assert(digit_val(c) == d);
    assert(is_hex_char(c));
    if n >= 16 {
        lemma_hex_bytes(n / 16);
        assert(hex_bytes(n).drop_last() =~= hex_bytes(n / 16));
        assert(hex_bytes(n).last() == c);
        assert(hex_bytes(n)[0] == hex_bytes(n / 16)[0]);
        assert(forall|i: int| 0 <= i < hex_bytes(n / 16).len() ==> hex_bytes(n)[i] == hex_bytes(n / 16)[i]);
    } else {
        assert(hex_bytes(n).drop_last() =~= Seq::<u8>::empty());
        assert(hex_val(Seq::<u8>::empty()) == 0);
    }
}

proof fn lemma_val_prefix(ds: Seq<u8>, j: int)
    requires
        0 <= j <= ds.len(),
    ensures
        hex_val(ds.take(j)) <= hex_val(ds),
    decreases ds.len(),
{
    if j < ds.len() {
        lemma_val_prefix(ds.drop_last(), j);
        assert(ds.drop_last().take(j) =~= ds.take(j));
    } else {
        assert(ds.take(j) =~= ds);
    }
}

/// The digits of a chunk size from the second one on, then its end.
proof fn lemma_size_digits(s: CState, n: nat, tail: Seq<u8>, i: int)
    requires
        0 < n <= 0x1_0000,
        tail.len() > 0,
        tail[0] == 0x0d,
        1 <= i <= hex_bytes(n).len(),
        s.chunk_flag,
        s.num_flag,
        s.hex_count == hex_val(hex_bytes(n).take(i)),
    ensures
        decode_size_at(s, hex_bytes(n) + tail, i) == decode_special_char(CState { hex_count: n as i64, ..s }, tail),
    decreases hex_bytes(n).len() - i,
{
    let ds = hex_bytes(n);
    let buf = ds + tail;
    let len = ds.len() as int;
    lemma_hex_bytes(n);
    if i == len {
        assert(ds.take(len) =~= ds);
        assert(from(buf, len) =~= tail);
        assert(CState { hex_count: n as i64, ..s } == s);
    } else {
        let b = buf[i];
        assert(b == ds[i]);
        assert(is_hex_char(ds[i]));
        lemma_val_prefix(ds, i + 1);
        assert(ds.take(i + 1).drop_last() =~= ds.take(i));
        assert(ds.take(i + 1).last() == ds[i]);
        let h = hex_val(ds.take(i + 1));
        assert(h == s.hex_count * 16 + digit_val(b));
        if b == 0x30 {
            assert(hex_step(s.hex_count, 0) == Some(h as i64));
            lemma_size_digits(CState { hex_count: h as i64, ..s }, n, tail, i + 1);
        } else {
            assert(hex_digit(b) == Some(digit_val(b) as i64));
            assert(hex_step(s.hex_count, digit_val(b) as i64) == Some(h as i64));
            assert(CState { hex_count: h as i64, chunk_flag: true, num_flag: true, ..s } == CState {
                hex_count: h as i64,
                ..s
            });
            lemma_size_digits(CState { hex_count: h as i64, ..s }, n, tail, i + 1);
        }
    }
}

/// A decoder state at the start of a chunk, before the last chunk.
pub open spec fn at_chunk(s: CState) -> bool {
    &&& s.stage == Stage::Size
    &&& !s.cr_meet
    &&& s.hex_count == 0
    &&& s.rest_size == 0
    &&& !s.num_flag
    &&& !s.is_last_chunk
    &&& !s.is_chunk_trailer
    &&& s.trailer == Seq::<u8>::empty()
}

/// A decoder state at the start of a chunk, without trailer handling.
pub open spec fn ready(s: CState) -> bool {
    at_chunk(s) && !s.is_trailer
}

/// The state after a chunk with data.
pub open spec fn after_data(s: CState) -> CState {
    CState {
        stage: Stage::Size,
        cr_meet: false,
        total_size: 0,
        rest_size: 0,
        hex_count: 0,
        chunk_flag: true,
        num_flag: false,
        ..s
    }
}

/// The state after the last chunk, the one of size zero.
pub open spec fn after_last(s: CState) -> CState {
    CState {
        stage: Stage::Size,
        cr_meet: false,
        total_size: 0,
        rest_size: 0,
        hex_count: 0,
        chunk_flag: false,
        num_flag: false,
        is_last_chunk: true,
        ..s
    }
}

/// A chunk with data, as written, decoded in one step.
proof fn lemma_chunk_step(s: CState, data: Seq<u8>, rest: Seq<u8>)
    requires
        at_chunk(s),
        0 < data.len() <= 1024,
    ensures
        decode_step(s, hex_bytes(data.len()) + crlf() + data + crlf() + rest) == Ok::<(CState, ChunkV, Seq<u8>), ()>(
            (after_data(s), cv(ChunkState::Finish, data.len() as usize, data, None), rest),
        ),
{
    reveal(decode_step);
    let n = data.len();
    let ds = hex_bytes(n);
    let tail = crlf() + data + crlf() + rest;
    let buf = ds + tail;
    assert(hex_bytes(data.len()) + crlf() + data + crlf() + rest =~= buf);
    lemma_hex_bytes(n);
    let sa = CState { chunk_flag: false, ..CState { stage: Stage::Size, ..s } };
    let d0 = digit_val(ds[0]);
    assert(is_hex_char(ds[0]));
    assert(hex_digit(ds[0]) == Some(d0 as i64));
    assert(ds.take(1).drop_last() =~= Seq::<u8>::empty());
    assert(hex_val(Seq::<u8>::empty()) == 0);
    assert(ds.take(1).last() == ds[0]);
    assert(hex_val(ds.take(1)) == d0);
    let sb = CState { hex_count: d0 as i64, chunk_flag: true, num_flag: true, ..sa };
    assert(buf[0] == ds[0]);
    assert(decode_size_at(sa, buf, 0) == decode_size_at(sb, buf, 1));
    lemma_size_digits(sb, n, tail, 1);
    let sc = CState { hex_count: n as i64, ..sb };
    lemma_after_size(s, sc, data, rest);
}

/// From the end of a chunk's size on: the line end, the data and its line
/// end.
proof fn lemma_after_size(s: CState, sc: CState, data: Seq<u8>, rest: Seq<u8>)
    requires
        at_chunk(s),
        0 < data.len() <= 1024,
        sc == (CState { hex_count: data.len() as i64, chunk_flag: true, num_flag: true, stage: Stage::Size, ..s }),
    ensures
        decode_special_char(sc, crlf() + data + crlf() + rest) == Ok::<(CState, ChunkV, Seq<u8>), ()>(
            (after_data(s), cv(ChunkState::Finish, data.len() as usize, data, None), rest),
        ),
{
    let n = data.len();
    let tail = crlf() + data + crlf() + rest;
    let s2 = CState { total_size: n as usize, hex_count: 0, num_flag: false, rest_size: n as usize, ..sc };
    let se = CState { stage: Stage::Extension, ..s2 };
    assert(decode_special_char(sc, tail) == skip_extension(s2, tail));
    assert(skip_extension(s2, tail) == skip_chunk_ext_at(se, tail, 0));
    let t1 = from(tail, 1);
    assert(skip_chunk_ext_at(se, tail, 0) == skip_crlf(CState { cr_meet: true, ..se }, t1));
    let sf = CState { stage: Stage::SizeEnd, ..CState { cr_meet: true, ..se } };
    let t2 = from(t1, 1);
    assert(t2 =~= data + crlf() + rest);
    assert(skip_crlf_at(sf, t1, 0) == decode_data(CState { cr_meet: false, ..sf }, t2));
    let sg = CState { stage: Stage::Data, ..CState { cr_meet: false, ..sf } };
    let sh = CState { rest_size: 0, cr_meet: false, ..sg };
    assert(t2.subrange(0, n as int) =~= data);
    let t3 = from(t2, n as int);
    assert(t3 =~= crlf() + rest);
    assert(decode_data(CState { cr_meet: false, ..sf }, t2) == skip_last_crlf(sh, data, t3));
    let si = CState { stage: Stage::DataEnd, ..sh };
    assert(skip_last_crlf_at(si, data, t3, 0) == skip_last_crlf_at(CState { cr_meet: true, ..si }, data, t3, 1));
    assert(from(t3, 2) =~= rest);
    assert(CState { cr_meet: false, stage: Stage::Size, total_size: 0, ..CState { cr_meet: true, ..si } } == after_data(s));
}

/// The last chunk, of size zero and without trailer lines, decoded in one
/// step.
proof fn lemma_zero_step(s: CState, rest: Seq<u8>)
    requires
        ready(s),
    ensures
        decode_step(s, closing(Seq::empty()) + rest) == Ok::<(CState, ChunkV, Seq<u8>), ()>(
            (after_last(s), cv(ChunkState::Finish, 0, Seq::empty(), None), rest),
        ),
{
    reveal(decode_step);
    let buf = closing(Seq::empty()) + rest;
    assert(buf[0] == 0x30 && buf[1] == 0x0d && buf[2] == 0x0a && buf[3] == 0x0d && buf[4] == 0x0a);
    let sa = CState { chunk_flag: false, ..CState { stage: Stage::Size, ..s } };
    assert(hex_step(0, 0) == Some(0i64));
    assert(decode_size_at(sa, buf, 0) == decode_size_at(sa, buf, 1));
    let t0 = from(buf, 1);
    assert(decode_size_at(sa, buf, 1) == decode_special_char(sa, t0));
    let s2 = CState { total_size: 0, hex_count: 0, num_flag: false, ..sa };
    let s3 = CState { is_last_chunk: true, ..s2 };
    let se = CState { stage: Stage::Extension, ..s3 };
    assert(decode_special_char(sa, t0) == skip_extension(s3, t0));
    let t1 = from(t0, 1);
    assert(skip_chunk_ext_at(se, t0, 0) == skip_crlf(CState { cr_meet: true, ..se }, t1));
    let sf = CState { stage: Stage::SizeEnd, ..CState { cr_meet: true, ..se } };
    let t2 = from(t1, 1);
    assert(t2 =~= crlf() + rest);
    assert(skip_crlf_at(sf, t1, 0) == decode_data(CState { cr_meet: false, ..sf }, t2));
    let sg = CState { stage: Stage::Data, ..CState { cr_meet: false, ..sf } };
    let sh = CState { rest_size: 0, cr_meet: false, ..sg };
    assert(t2.subrange(0, 0) =~= Seq::<u8>::empty());
    assert(from(t2, 0) =~= t2);
    assert(decode_data(CState { cr_meet: false, ..sf }, t2) == skip_last_crlf(sh, Seq::empty(), t2));
    let si = CState { stage: Stage::DataEnd, ..sh };
    assert(skip_last_crlf_at(si, Seq::empty(), t2, 0) == skip_last_crlf_at(
        CState { cr_meet: true, ..si },
        Seq::empty(),
        t2,
        1,
    ));
    assert(from(t2, 2) =~= rest);
    assert(CState { cr_meet: false, stage: Stage::Size, total_size: 0, ..CState { cr_meet: true, ..si } } == after_last(s));
}

/// The chunks that the decoder gives for a body written without trailer
/// lines, numbered from `k`: one of 1024 octets while more than that are
/// left, then one with the rest when there is any, then the empty last
/// chunk.
pub open spec fn chunk_items(b: Seq<u8>, k: usize) -> Seq<(usize, ChunkV)>
    decreases b.len(),
{
    if b.len() == 0 {
        seq![(k, cv(ChunkState::Finish, 0, Seq::empty(), None))]
    } else if b.len() <= 1024 {
        seq![
            (k, cv(ChunkState::Finish, b.len() as usize, b, None)),
            (next_id(k), cv(ChunkState::Finish, 0, Seq::empty(), None)),
        ]
    } else {
        seq![(k, cv(ChunkState::Finish, 1024, b.subrange(0, 1024), None))] + chunk_items(
            b.subrange(1024, b.len() as int),
            next_id(k),
        )
    }
}

/// The data of decoded chunks, one after the other.
pub open spec fn items_data(items: Seq<(usize, ChunkV)>) -> Seq<u8>
    decreases items.len(),
{
    if items.len() == 0 {
        Seq::empty()
    } else {
        items[0].1.2 + items_data(items.drop_first())
    }
}

proof fn lemma_items_data(b: Seq<u8>, k: usize)
    ensures
        items_data(chunk_items(b, k)) == b,
    decreases b.len(),
{
    let items = chunk_items(b, k);
    let none = Seq::<(usize, ChunkV)>::empty();
    assert(items_data(none) == Seq::<u8>::empty());
    if b.len() == 0 {
        assert(items.drop_first() == none);
        assert(items_data(items) == items[0].1.2 + items_data(none));
        assert(items_data(items) =~= b);
    } else if b.len() <= 1024 {
        let one = items.drop_first();
        assert(one.drop_first() == none);
        assert(items_data(one) == one[0].1.2 + items_data(none));
        assert(items_data(one) =~= Seq::<u8>::empty());
        assert(items_data(items) == items[0].1.2 + items_data(one));
        assert(items_data(items) =~= b);
    } else {
        let rb = b.subrange(1024, b.len() as int);
        lemma_items_data(rb, next_id(k));
        assert(items.drop_first() =~= chunk_items(rb, next_id(k)));
        assert(b.subrange(0, 1024) + rb =~= b);
    }
}

proof fn lemma_chunks_from(s: CState, b: Seq<u8>)
    requires
        ready(s),
    ensures
        decode_chunks(s, chunks_wire(b) + closing(Seq::empty())) matches Ok((s2, items, left)) && items
            == chunk_items(b, s.chunk_num) && left == Seq::<u8>::empty(),
    decreases b.len(),
{
    reveal(decode_chunks);
    let c0 = cv(ChunkState::Finish, 0, Seq::empty(), None);
    let close = closing(Seq::empty());
    if b.len() == 0 {
        assert(chunks_wire(b) + close =~= close + Seq::<u8>::empty());
        lemma_zero_step(s, Seq::empty());
        assert(merged_trailer(after_last(s).trailer, c0) == after_last(s).trailer);
    } else if b.len() <= 1024 {
        let buf = chunks_wire(b) + close;
        assert(buf =~= hex_bytes(b.len()) + crlf() + b + crlf() + close);
        lemma_chunk_step(s, b, close);
        let c = cv(ChunkState::Finish, b.len() as usize, b, None);
        let s1 = after_data(s);
        assert(CState { trailer: merged_trailer(s1.trailer, c), ..s1 } == s1);
        let s3 = CState { chunk_num: next_id(s1.chunk_num), ..s1 };
        assert(after_chunk(s1, c, close) == (s3, false));
        assert(ready(s3));
        assert(close =~= close + Seq::<u8>::empty());
        lemma_zero_step(s3, Seq::empty());
        assert(merged_trailer(after_last(s3).trailer, c0) == after_last(s3).trailer);
        assert(decode_chunks(s3, close) matches Ok((_, items, left)) && items == seq![(s3.chunk_num, c0)]
            && left == Seq::<u8>::empty());
        assert(seq![(s.chunk_num, c)] + seq![(s3.chunk_num, c0)] =~= chunk_items(b, s.chunk_num));
    } else {
        let head = b.subrange(0, 1024);
        let rb = b.subrange(1024, b.len() as int);
        let more = chunks_wire(rb) + close;
        let buf = chunks_wire(b) + close;
        assert(buf =~= hex_bytes(1024) + crlf() + head + crlf() + more);
        lemma_chunk_step(s, head, more);
        let c = cv(ChunkState::Finish, 1024, head, None);
        let s1 = after_data(s);
        assert(CState { trailer: merged_trailer(s1.trailer, c), ..s1 } == s1);
        let s3 = CState { chunk_num: next_id(s1.chunk_num), ..s1 };
        assert(more.len() > 0);
        assert(after_chunk(s1, c, more) == (s3, false));
        lemma_chunks_from(s3, rb);
        assert(seq![(s.chunk_num, c)] + chunk_items(rb, s3.chunk_num) =~= chunk_items(b, s.chunk_num));
    }
}

/// A body that `ChunkBody` writes without trailer lines is read back in
/// full by a new `ChunkBodyDecoder`: the chunks decoded carry the body's
/// octets in order, each whole, numbered from 0, and the empty last chunk
/// ends them; nothing is left unread.
pub proof fn lemma_chunk_readback(b: Seq<u8>)
    ensures
        decode_chunks(initial_cstate(), chunk_stream(b, Seq::empty())) matches Ok((s, items, left)) && items
            == chunk_items(b, 0) && items_data(items) == b && left == Seq::<u8>::empty(),
{
    lemma_chunks_from(initial_cstate(), b);
    lemma_items_data(b, 0);
}

/// A trailer line: not empty, without CR or LF.
pub open spec fn trailer_line(l: Seq<u8>) -> bool {
    &&& l.len() > 0
    &&& forall|i: int| 0 <= i < l.len() ==> #[trigger] l[i] != 0x0d && l[i] != 0x0a
}

/// Trailer lines as written: each followed by a line end.
pub open spec fn trailer_text(lines: Seq<Seq<u8>>) -> Seq<u8>
    decreases lines.len(),
{
    if lines.len() == 0 {
        Seq::empty()
    } else {
        lines[0] + crlf() + trailer_text(lines.drop_first())
    }
}

/// The trailer octets a decoder holds at the end of the body: the lines
/// read, and a line end after them when there are any.
pub open spec fn closed_trailer(t: Seq<u8>) -> Seq<u8> {
    if t.len() > 0 { t + crlf() } else { t }
}

/// The chunks that the decoder gives for trailer lines, numbered from `k`:
/// one per line, then the end of the body.
pub open spec fn trailer_items(lines: Seq<Seq<u8>>, k: usize) -> Seq<(usize, ChunkV)>
    decreases lines.len(),
{
    if lines.len() == 0 {
        seq![(k, cv(ChunkState::Finish, 0, Seq::empty(), Some(Seq::empty())))]
    } else {
        seq![(k, cv(ChunkState::DataCrlf, 0, Seq::empty(), Some(lines[0])))] + trailer_items(
            lines.drop_first(),
            next_id(k),
        )
    }
}

proof fn lemma_line_scan(s: CState, line: Seq<u8>, rest: Seq<u8>, i: int)
    requires
        trailer_line(line),
        0 <= i <= line.len(),
        !s.cr_meet,
        !s.is_last_chunk,
    ensures
        decode_trailer_data_at(s, line + crlf() + rest, i) == Ok::<(CState, ChunkV, Seq<u8>), ()>(
            (
                CState { cr_meet: false, is_trailer_crlf: true, stage: Stage::TrailerData, ..s },
                cv(ChunkState::DataCrlf, 0, Seq::empty(), Some(line)),
                rest,
            ),
        ),
    decreases line.len() - i,
{
    let buf = line + crlf() + rest;
    if i == line.len() {
        assert(buf[i] == 0x0d);
        assert(buf.subrange(0, i) =~= line);
        let t = from(buf, i + 1);
        assert(t[0] == 0x0a);
        let se = CState { stage: Stage::TrailerEndCrlf, ..CState { cr_meet: true, ..s } };
        assert(skip_trailer_last_crlf(CState { cr_meet: true, ..s }, line, t) == skip_trailer_last_crlf_at(se, line, t, 0));
        assert(from(t, 1) =~= rest);
    } else {
        assert(buf[i] == line[i]);
        lemma_line_scan(s, line, rest, i + 1);
    }
}

/// A trailer line decoded in one step.
proof fn lemma_trailer_line_step(s: CState, line: Seq<u8>, rest: Seq<u8>)
    requires
        trailer_line(line),
        !s.cr_meet,
        !s.is_last_chunk,
    ensures
        decode_trailer_data(s, line + crlf() + rest) == Ok::<(CState, ChunkV, Seq<u8>), ()>(
            (
                CState { cr_meet: false, is_trailer_crlf: true, stage: Stage::TrailerData, ..s },
                cv(ChunkState::DataCrlf, 0, Seq::empty(), Some(line)),
                rest,
            ),
        ),
{
    let buf = line + crlf() + rest;
    assert(buf[0] == line[0]);
    let s1 = CState { stage: Stage::TrailerData, ..s };
    lemma_line_scan(s1, line, rest, 0);
}

/// The empty line that ends the trailer, decoded in one step.
proof fn lemma_trailer_end_step(s: CState, rest: Seq<u8>)
    requires
        !s.cr_meet,
        s.is_trailer_crlf,
    ensures
        decode_trailer_data(s, crlf() + rest) == Ok::<(CState, ChunkV, Seq<u8>), ()>(
            (
                CState { cr_meet: false, is_last_chunk: true, stage: Stage::TrailerEndCrlf, ..s },
                cv(ChunkState::Finish, 0, Seq::empty(), Some(Seq::empty())),
                rest,
            ),
        ),
{
    let buf = crlf() + rest;
    let s2 = CState { is_last_chunk: true, ..CState { stage: Stage::TrailerData, ..s } };
    assert(buf.subrange(0, 0) =~= Seq::<u8>::empty());
    let t = from(buf, 1);
    assert(t[0] == 0x0a);
    let se = CState { stage: Stage::TrailerEndCrlf, ..CState { cr_meet: true, ..s2 } };
    assert(decode_trailer_data_at(s2, buf, 0) == skip_trailer_last_crlf(CState { cr_meet: true, ..s2 }, Seq::empty(), t));
    assert(skip_trailer_last_crlf(CState { cr_meet: true, ..s2 }, Seq::empty(), t) == skip_trailer_last_crlf_at(
        se,
        Seq::empty(),
        t,
        0,
    ));
    assert(from(t, 1) =~= rest);
}

/// The state in which the decoder reads the trailer after the last chunk.
pub open spec fn trailer_start(s: CState) -> CState {
    CState {
        cr_meet: false,
        is_trailer_crlf: true,
        stage: Stage::TrailerCrlf,
        is_chunk_trailer: true,
        num_flag: false,
        chunk_flag: false,
        ..s
    }
}

/// The last chunk `0` and its line end, read by a decoder that accepts
/// trailer lines: the step goes on with what follows as trailer.
proof fn lemma_last_chunk_trailer(s: CState, x: Seq<u8>)
    requires
        at_chunk(s),
        s.is_trailer,
    ensures
        decode_step(s, seq![0x30u8, 0x0du8, 0x0au8] + x) == decode_trailer_data(trailer_start(s), x),
{
    reveal(decode_step);
    let buf = seq![0x30u8, 0x0du8, 0x0au8] + x;
    assert(buf[0] == 0x30 && buf[1] == 0x0d && buf[2] == 0x0a);
    let sa = CState { chunk_flag: false, ..CState { stage: Stage::Size, ..s } };
    let sb = CState { is_chunk_trailer: true, num_flag: false, ..sa };
    assert(from(buf, 0) =~= buf);
    assert(decode_size_at(sa, buf, 0) == skip_extension(sb, buf));
    let se = CState { stage: Stage::Extension, ..sb };
    assert(skip_extension(sb, buf) == skip_trailer_ext_at(se, buf, 0));
    assert(skip_trailer_ext_at(se, buf, 0) == skip_trailer_ext_at(se, buf, 1));
    let t = from(buf, 2);
    assert(skip_trailer_ext_at(se, buf, 1) == skip_trailer_crlf(CState { cr_meet: true, ..se }, t));
    let sf = CState { stage: Stage::TrailerCrlf, ..CState { cr_meet: true, ..se } };
    assert(t[0] == 0x0a);
    assert(from(t, 1) =~= x);
    assert(skip_trailer_crlf_at(sf, t, 0) == decode_trailer_data(CState { cr_meet: false, is_trailer_crlf: true, ..sf }, x));
    assert(CState { cr_meet: false, is_trailer_crlf: true, ..sf } == trailer_start(s));
}

proof fn lemma_trailer_lines(s: CState, lines: Seq<Seq<u8>>, rest: Seq<u8>)
    requires
        forall|i: int| 0 <= i < lines.len() ==> trailer_line(#[trigger] lines[i]),
        s.stage == Stage::TrailerData,
        !s.cr_meet,
        s.is_trailer_crlf,
        !s.is_last_chunk,
        s.is_chunk_trailer,
    ensures
        decode_chunks(s, trailer_text(lines) + crlf() + rest) matches Ok((s2, items, left)) && items
            == trailer_items(lines, s.chunk_num) && left == rest && s2.trailer == closed_trailer(
            s.trailer + trailer_text(lines),
        ),
    decreases lines.len(),
{
    reveal(decode_chunks);
    reveal(decode_step);
    if lines.len() == 0 {
        assert(trailer_text(lines) + crlf() + rest =~= crlf() + rest);
        lemma_trailer_end_step(s, rest);
        assert(s.trailer + trailer_text(lines) =~= s.trailer);
    } else {
        let line = lines[0];
        let more = lines.drop_first();
        let after = trailer_text(more) + crlf() + rest;
        assert(trailer_text(lines) + crlf() + rest =~= line + crlf() + after);
        lemma_trailer_line_step(s, line, after);
        let c = cv(ChunkState::DataCrlf, 0, Seq::empty(), Some(line));
        let s1 = CState { cr_meet: false, is_trailer_crlf: true, stage: Stage::TrailerData, ..s };
        assert(s1 == s);
        assert((s.trailer + line).len() > 0);
        let s2 = CState { trailer: s.trailer + line + crlf(), ..s1 };
        assert(merged_trailer(s1.trailer, c) == s.trailer + line + crlf());
        let s3 = CState { chunk_num: next_id(s2.chunk_num), ..s2 };
        assert(after.len() > 0);
        assert(after_chunk(s2, c, after) == (s3, false));
        assert forall|i: int| 0 <= i < more.len() implies trailer_line(#[trigger] more[i]) by {
            assert(more[i] == lines[i + 1]);
        }
        lemma_trailer_lines(s3, more, rest);
        assert(s3.trailer + trailer_text(more) =~= s.trailer + trailer_text(lines));
        assert(seq![(s.chunk_num, c)] + trailer_items(more, s3.chunk_num) =~= trailer_items(lines, s.chunk_num));
    }
}

/// The chunks that a decoder accepting trailer lines gives for a body with
/// trailer lines `lines`, numbered from `k`: the body's chunks, then one
/// per trailer line, then the end of the body.
pub open spec fn chunk_items_with(b: Seq<u8>, lines: Seq<Seq<u8>>, k: usize) -> Seq<(usize, ChunkV)>
    decreases b.len(),
{
    if b.len() == 0 {
        trailer_items(lines, k)
    } else if b.len() <= 1024 {
        seq![(k, cv(ChunkState::Finish, b.len() as usize, b, None))] + trailer_items(lines, next_id(k))
    } else {
        seq![(k, cv(ChunkState::Finish, 1024, b.subrange(0, 1024), None))] + chunk_items_with(
            b.subrange(1024, b.len() as int),
            lines,
            next_id(k),
        )
    }
}

/// The last chunk and the trailer lines, read from the start of a chunk.
proof fn lemma_closing_with(s: CState, lines: Seq<Seq<u8>>)
    requires
        at_chunk(s),
        s.is_trailer,
        forall|i: int| 0 <= i < lines.len() ==> trailer_line(#[trigger] lines[i]),
    ensures
        decode_chunks(s, closing(trailer_text(lines))) matches Ok((s2, items, left)) && items == trailer_items(
            lines,
            s.chunk_num,
        ) && left == Seq::<u8>::empty() && s2.trailer == closed_trailer(trailer_text(lines)),
{
    reveal(decode_chunks);
    let text = trailer_text(lines);
    let close = closing(text);
    assert(close =~= seq![0x30u8, 0x0du8, 0x0au8] + (text + crlf()));
    lemma_last_chunk_trailer(s, text + crlf());
    let st = trailer_start(s);
    if lines.len() == 0 {
        assert(text + crlf() =~= crlf() + Seq::<u8>::empty());
        assert(text =~= Seq::<u8>::empty());
        lemma_trailer_end_step(st, Seq::empty());
        let c0 = cv(ChunkState::Finish, 0, Seq::<u8>::empty(), Some(Seq::<u8>::empty()));
        let s4 = CState { cr_meet: false, is_last_chunk: true, stage: Stage::TrailerEndCrlf, ..st };
        assert(merged_trailer(s4.trailer, c0) =~= closed_trailer(text));
        assert(seq![(s.chunk_num, c0)] =~= trailer_items(lines, s.chunk_num));
    } else {
        let line = lines[0];
        let more = lines.drop_first();
        let after = trailer_text(more) + crlf();
        assert(text + crlf() =~= line + crlf() + after);
        lemma_trailer_line_step(st, line, after);
        let c1 = cv(ChunkState::DataCrlf, 0, Seq::empty(), Some(line));
        let s4 = CState { cr_meet: false, is_trailer_crlf: true, stage: Stage::TrailerData, ..st };
        let s5 = CState { trailer: line + crlf(), ..s4 };
        assert(merged_trailer(s4.trailer, c1) =~= line + crlf());
        let s6 = CState { chunk_num: next_id(s5.chunk_num), ..s5 };
        assert(after.len() > 0);
        assert(after_chunk(s5, c1, after) == (s6, false));
        assert forall|i: int| 0 <= i < more.len() implies trailer_line(#[trigger] more[i]) by {
            assert(more[i] == lines[i + 1]);
        }
        assert(after =~= trailer_text(more) + crlf() + Seq::<u8>::empty());
        lemma_trailer_lines(s6, more, Seq::empty());
        assert(s6.trailer + trailer_text(more) =~= text);
        assert(seq![(s.chunk_num, c1)] + trailer_items(more, s6.chunk_num) =~= trailer_items(lines, s.chunk_num));
    }
}

proof fn lemma_chunks_with(s: CState, b: Seq<u8>, lines: Seq<Seq<u8>>)
    requires
        at_chunk(s),
        s.is_trailer,
        forall|i: int| 0 <= i < lines.len() ==> trailer_line(#[trigger] lines[i]),
    ensures
        decode_chunks(s, chunks_wire(b) + closing(trailer_text(lines))) matches Ok((s2, items, left)) && items
            == chunk_items_with(b, lines, s.chunk_num) && left == Seq::<u8>::empty() && s2.trailer == closed_trailer(
            trailer_text(lines),
        ),
    decreases b.len(),
{
    reveal(decode_chunks);
    let text = trailer_text(lines);
    let close = closing(text);
    if b.len() == 0 {
        assert(chunks_wire(b) + close =~= close);
        lemma_closing_with(s, lines);
    } else if b.len() <= 1024 {
        let buf = chunks_wire(b) + close;
        assert(buf =~= hex_bytes(b.len()) + crlf() + b + crlf() + close);
        lemma_chunk_step(s, b, close);
        let c = cv(ChunkState::Finish, b.len() as usize, b, None);
        let s1 = after_data(s);
        assert(CState { trailer: merged_trailer(s1.trailer, c), ..s1 } == s1);
        let s3 = CState { chunk_num: next_id(s1.chunk_num), ..s1 };
        assert(after_chunk(s1, c, close) == (s3, false));
        assert(at_chunk(s3));
        lemma_closing_with(s3, lines);
        assert(seq![(s.chunk_num, c)] + trailer_items(lines, s3.chunk_num) =~= chunk_items_with(b, lines, s.chunk_num));
    } else {
        let head = b.subrange(0, 1024);
        let rb = b.subrange(1024, b.len() as int);
        let more = chunks_wire(rb) + close;
        let buf = chunks_wire(b) + close;
        assert(buf =~= hex_bytes(1024) + crlf() + head + crlf() + more);
        lemma_chunk_step(s, head, more);
        let c = cv(ChunkState::Finish, 1024, head, None);
        let s1 = after_data(s);
        assert(CState { trailer: merged_trailer(s1.trailer, c), ..s1 } == s1);
        let s3 = CState { chunk_num: next_id(s1.chunk_num), ..s1 };
        assert(more.len() > 0);
        assert(after_chunk(s1, c, more) == (s3, false));
        lemma_chunks_with(s3, rb, lines);
        assert(seq![(s.chunk_num, c)] + chunk_items_with(rb, lines, s3.chunk_num) =~= chunk_items_with(
            b,
            lines,
            s.chunk_num,
        ));
    }
}

/// A body that `ChunkBody` writes with trailer lines is read back in full
/// by a new `ChunkBodyDecoder` that accepts trailer lines: the chunks carry
/// the body's octets in order, then one chunk per trailer line, then the
/// end of the body; nothing is left unread, and the decoder then holds the
/// trailer lines, with a line end after them.
pub proof fn lemma_chunk_trailer_readback(b: Seq<u8>, lines: Seq<Seq<u8>>)
    requires
        forall|i: int| 0 <= i < lines.len() ==> trailer_line(#[trigger] lines[i]),
    ensures
        decode_chunks(CState { is_trailer: true, ..initial_cstate() }, chunk_stream(b, trailer_text(lines)))
            matches Ok((s, items, left)) && items == chunk_items_with(b, lines, 0) && left == Seq::<u8>::empty()
            && s.trailer == closed_trailer(trailer_text(lines)),
{
    lemma_chunks_with(CState { is_trailer: true, ..initial_cstate() }, b, lines);
}

} // verus!
