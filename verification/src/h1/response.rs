//! HTTP/1.1 response heads (RFC 9112, sections 4 and 5): the status line
//! and the field lines, read from pieces of input of any size.
use vstd::prelude::*;
use crate::bytes::{bytes_eq, copy_bytes, lower_seq, push_bytes, to_lower};
use crate::error::{ErrorKind, H1Error, HttpError};
use crate::headers::{appended, is_token_byte, is_value_byte, Headers};
use crate::response::{status_of, ResponsePart, StatusCode, Version};

verus! {

/// The part of a field line being read.
#[derive(Debug, PartialEq, Eq, Structural, Clone, Copy)]
pub enum HeaderStage {
    /// Before the first field line.
    Start,
    /// The name.
    Key,
    /// The blanks before the value.
    OwsBefore,
    /// The value.
    Value,
    /// The line end.
    Crlf,
    /// After a line end: another field line or the empty line.
    EndCrlf,
}

/// The part of the response head being read.
#[derive(Debug, PartialEq, Eq, Structural, Clone, Copy)]
pub enum ParseStage {
    /// Nothing read yet.
    Initial,
    /// The version.
    Version,
    /// The status code.
    StatusCode,
    /// The reason phrase.
    Reason,
    /// The line end of the status line.
    StatusCrlf,
    /// A field line.
    Header(HeaderStage),
    /// The empty line that ends the head.
    BlankLine,
}

/// The abstract state of a response decoder.
#[verifier::ext_equal]
pub struct RState {
    /// The part being read.
    pub stage: ParseStage,
    /// The version read.
    pub version: Option<Version>,
    /// The status code read.
    pub status: Option<u16>,
    /// The field lines read.
    pub lines: Option<Seq<(Seq<u8>, Seq<u8>)>>,
    /// The name of the field line being read.
    pub head_key: Seq<u8>,
    /// The start of a token cut off at the end of the previous piece.
    pub rest: Seq<u8>,
    /// The previous piece ended with a CR.
    pub new_line: bool,
}

/// A decoded head: version, status code and field lines.
pub type PartV = (Version, u16, Seq<(Seq<u8>, Seq<u8>)>);

/// The outcome of a scan for the end of a token.
pub enum Tok {
    /// The token ends at the first position; the rest starts at the second.
    Complete(int, int),
    /// The token goes on past the end of the input.
    Partial,
    /// A byte not allowed in the token.
    Invalid,
}

/// A byte of a version or status code: visible ASCII.
pub open spec fn is_status_byte(b: u8) -> bool {
    0x1f < b && b < 0x7f
}

/// A byte of a reason phrase: tab, space, visible ASCII or obs-text.
pub open spec fn is_reason_byte(b: u8) -> bool {
    b == 0x09 || b == 0x20 || (0x21 <= b && b <= 0x7e) || 0x80 <= b
}

/// A space or horizontal tab.
pub open spec fn is_ows(b: u8) -> bool {
    b == 0x20 || b == 0x09
}

/// A CR or LF.
pub open spec fn is_eol(b: u8) -> bool {
    b == 0x0d || b == 0x0a
}

/// Scans a version or status code from `i`: it ends at a space.
pub open spec fn status_tok_at(buf: Seq<u8>, i: int) -> Tok
    decreases buf.len() - i,
{
    if i < 0 || i >= buf.len() {
        Tok::Partial
    } else if buf[i] == 0x20 {
        Tok::Complete(i, i + 1)
    } else if !is_status_byte(buf[i]) {
        Tok::Invalid
    } else {
        status_tok_at(buf, i + 1)
    }
}

/// Scans a reason phrase from `i`: it ends before CR or LF.
pub open spec fn reason_at(buf: Seq<u8>, i: int) -> Tok
    decreases buf.len() - i,
{
    if i < 0 || i >= buf.len() {
        Tok::Partial
    } else if is_eol(buf[i]) {
        Tok::Complete(i, i)
    } else if !is_reason_byte(buf[i]) {
        Tok::Invalid
    } else {
        reason_at(buf, i + 1)
    }
}

/// Scans a field name from `i`: it ends at a colon.
pub open spec fn name_at(buf: Seq<u8>, i: int) -> Tok
    decreases buf.len() - i,
{
    if i < 0 || i >= buf.len() {
        Tok::Partial
    } else if buf[i] == 0x3a {
        Tok::Complete(i, i + 1)
    } else if !is_token_byte(buf[i]) {
        Tok::Invalid
    } else {
        name_at(buf, i + 1)
    }
}

/// Scans a field value from `i`: it ends before CR or LF.
pub open spec fn value_at(buf: Seq<u8>, i: int) -> Tok
    decreases buf.len() - i,
{
    if i < 0 || i >= buf.len() {
        Tok::Partial
    } else if is_eol(buf[i]) {
        Tok::Complete(i, i)
    } else if !is_value_byte(buf[i]) {
        Tok::Invalid
    } else {
        value_at(buf, i + 1)
    }
}

/// The position of the first byte from `i` that is not a blank, if any.
pub open spec fn ows_at(buf: Seq<u8>, i: int) -> Option<int>
    decreases buf.len() - i,
{
    if i < 0 || i >= buf.len() {
        None
    } else if !is_ows(buf[i]) {
        Some(i)
    } else {
        ows_at(buf, i + 1)
    }
}

/// The outcome of reading a line end.
pub enum CrlfR {
    /// A line end; what follows starts at the position.
    Complete(int),
    /// More input is needed; 1 when a CR was read.
    Partial(int),
    /// Not a line end.
    Invalid,
}

/// Reads a line end (CRLF or a bare LF); `cr_meet` if its CR ended the
/// previous piece.
pub open spec fn crlf_of(buf: Seq<u8>, cr_meet: bool) -> CrlfR {
    if buf.len() == 0 {
        CrlfR::Partial(0)
    } else if buf[0] == 0x0d {
        if cr_meet {
            CrlfR::Invalid
        } else if buf.len() == 1 {
            CrlfR::Partial(1)
        } else if buf[1] == 0x0a {
            CrlfR::Complete(2)
        } else {
            CrlfR::Invalid
        }
    } else if buf[0] == 0x0a {
        CrlfR::Complete(1)
    } else {
        CrlfR::Invalid
    }
}

/// The bytes of `s` from `i` on.
pub open spec fn from(s: Seq<u8>, i: int) -> Seq<u8> {
    s.subrange(i, s.len() as int)
}

/// `v` without its trailing blanks; empty when it is all blanks.
pub open spec fn rtrim(v: Seq<u8>) -> Seq<u8>
    decreases v.len(),
{
    if v.len() == 0 {
        v
    } else if is_ows(v.last()) {
        rtrim(v.drop_last())
    } else {
        v
    }
}

/// The outcome of a step within the field lines: the state and the input
/// left (`None`: more input is needed).
pub type HOut = (RState, Result<Option<Seq<u8>>, ()>);

/// The outcome of decoding: the state and, once the head is complete, the
/// head and the input after it.
pub type DOut = (RState, Result<Option<(PartV, Seq<u8>)>, ()>);

/// Reads a field name.
pub open spec fn key_step(st: RState, buf: Seq<u8>) -> HOut {
    let st1 = RState { stage: ParseStage::Header(HeaderStage::Key), ..st };
    match name_at(buf, 0) {
        Tok::Invalid => (st1, Err(())),
        Tok::Partial => (RState { rest: st.rest + buf, ..st1 }, Ok(None)),
        Tok::Complete(i, j) => (RState { head_key: st.rest + buf.subrange(0, i), rest: Seq::empty(), ..st1 }, Ok(Some(from(buf, j)))),
    }
}

/// Passes the blanks before a value.
pub open spec fn ows_step(st: RState, buf: Seq<u8>) -> HOut {
    let st1 = RState { stage: ParseStage::Header(HeaderStage::OwsBefore), ..st };
    match ows_at(buf, 0) {
        Some(i) => (st1, Ok(Some(from(buf, i)))),
        None => (st1, Ok(None)),
    }
}

/// Reads a field value and records the field line under its lower-cased
/// name, trailing blanks removed.
pub open spec fn value_step(st: RState, buf: Seq<u8>) -> HOut {
    let st1 = RState { stage: ParseStage::Header(HeaderStage::Value), ..st };
    match value_at(buf, 0) {
        Tok::Invalid => (st1, Err(())),
        Tok::Partial => (RState { rest: st.rest + buf, ..st1 }, Ok(None)),
        Tok::Complete(i, j) => {
            let v = rtrim(st.rest + buf.subrange(0, i));
            let lines = match st.lines {
                Some(l) => l,
                None => Seq::empty(),
            };
            (RState {
                lines: Some(appended(lines, lower_seq(st.head_key), v)),
                head_key: Seq::empty(),
                rest: Seq::empty(),
                ..st1
            }, Ok(Some(from(buf, j))))
        },
    }
}

/// Reads the line end of a field line.
pub open spec fn crlf_step(st: RState, buf: Seq<u8>) -> HOut {
    let st1 = RState { stage: ParseStage::Header(HeaderStage::Crlf), ..st };
    match crlf_of(buf, false) {
        CrlfR::Complete(k) => (RState { new_line: false, ..st1 }, Ok(Some(from(buf, k)))),
        CrlfR::Partial(step) => (if step == 1 { RState { new_line: true, ..st1 } } else { st1 }, Ok(None)),
        CrlfR::Invalid => (st1, Err(())),
    }
}

/// After a field line: `Some` ends the field lines (more input needed, or
/// an empty line follows), `None` goes on with another field line.
pub open spec fn detect_blank(st: RState, buf: Seq<u8>) -> Option<HOut> {
    if buf.len() == 0 {
        Some((RState { stage: ParseStage::Header(HeaderStage::EndCrlf), ..st }, Ok(None)))
    } else if is_eol(buf[0]) {
        Some((st, Ok(Some(buf))))
    } else {
        None
    }
}

/// Field lines from a name on.
pub open spec fn from_key(st: RState, buf: Seq<u8>) -> HOut
    decreases buf.len(), 2nat,
{
    let o1 = key_step(st, buf);
    match o1.1 {
        Ok(Some(r1)) => {
            let o2 = ows_step(o1.0, r1);
            match o2.1 {
                Ok(Some(r2)) => after_value(value_step(o2.0, r2), buf.len()),
                _ => o2,
            }
        },
        _ => o1,
    }
}

/// Field lines after a value is read, where `bound` is longer than the
/// input left.
pub open spec fn after_value(o: HOut, bound: nat) -> HOut
    decreases bound, 1nat,
{
    match o.1 {
        Ok(Some(r3)) => after_crlf(crlf_step(o.0, r3), bound),
        _ => o,
    }
}

/// Field lines after a line end is read.
pub open spec fn after_crlf(o: HOut, bound: nat) -> HOut
    decreases bound, 0nat,
{
    match o.1 {
        Ok(Some(r4)) => match detect_blank(o.0, r4) {
            Some(end) => end,
            None => if r4.len() < bound { from_key(o.0, r4) } else { (o.0, Err(())) },
        },
        _ => o,
    }
}

/// Field lines from the blanks before a value on.
pub open spec fn from_ows(st: RState, buf: Seq<u8>) -> HOut {
    let o2 = ows_step(st, buf);
    match o2.1 {
        Ok(Some(r2)) => after_value(value_step(o2.0, r2), buf.len() + 1),
        _ => o2,
    }
}

/// Field lines from a value on.
pub open spec fn from_value(st: RState, buf: Seq<u8>) -> HOut {
    after_value(value_step(st, buf), buf.len() + 1)
}

/// Field lines from a line end on.
pub open spec fn from_crlf(st: RState, buf: Seq<u8>) -> HOut {
    after_crlf(crlf_step(st, buf), buf.len() + 1)
}

/// Field lines after a line end.
pub open spec fn from_crlf_end(st: RState, buf: Seq<u8>) -> HOut {
    after_crlf((st, Ok(Some(buf))), buf.len() + 1)
}

/// Field lines, by the part being read.
pub open spec fn header_step(st: RState, buf: Seq<u8>) -> HOut {
    match st.stage {
        ParseStage::Header(HeaderStage::Start) => if buf.len() == 0 {
            (st, Ok(None))
        } else if is_eol(buf[0]) {
            (st, Ok(Some(buf)))
        } else {
            from_key(st, buf)
        },
        ParseStage::Header(HeaderStage::Key) => from_key(st, buf),
        ParseStage::Header(HeaderStage::OwsBefore) => from_ows(st, buf),
        ParseStage::Header(HeaderStage::Value) => from_value(st, buf),
        ParseStage::Header(HeaderStage::Crlf) => from_crlf(st, buf),
        ParseStage::Header(HeaderStage::EndCrlf) => from_crlf_end(st, buf),
        _ => (st, Err(())),
    }
}

/// Reads a line end that ends the status line or the head.
pub open spec fn status_crlf(st: RState, buf: Seq<u8>) -> HOut {
    let st1 = RState { new_line: false, ..st };
    match crlf_of(buf, st.new_line) {
        CrlfR::Complete(k) => (st1, Ok(Some(from(buf, k)))),
        CrlfR::Partial(step) => if step == 0 {
            (st1, Ok(None))
        } else if step == 1 {
            (RState { new_line: true, ..st1 }, Ok(None))
        } else {
            (st1, Err(()))
        },
        CrlfR::Invalid => (st1, Err(())),
    }
}

/// The empty line that ends the head; then the head is handed out.
pub open spec fn blank_line_phase(st: RState, buf: Seq<u8>) -> DOut {
    let o = status_crlf(RState { stage: ParseStage::BlankLine, ..st }, buf);
    match o.1 {
        Ok(Some(rest)) => (
            RState { version: None, status: None, lines: None, ..o.0 },
            Ok(Some(((st.version->0, st.status->0, st.lines->0), rest))),
        ),
        Ok(None) => (o.0, Ok(None)),
        Err(()) => (o.0, Err(())),
    }
}

/// Goes from field lines to the empty line.
pub open spec fn to_blank(o: HOut) -> DOut {
    match o.1 {
        Ok(Some(rest)) => blank_line_phase(o.0, rest),
        Ok(None) => (o.0, Ok(None)),
        Err(()) => (o.0, Err(())),
    }
}

/// The field lines after the status line.
pub open spec fn header_phase_with_init(st: RState, buf: Seq<u8>) -> DOut {
    let st1 = RState { lines: Some(Seq::empty()), ..st };
    if buf.len() == 0 {
        (RState { stage: ParseStage::Header(HeaderStage::Start), ..st1 }, Ok(None))
    } else if is_eol(buf[0]) {
        blank_line_phase(st1, buf)
    } else {
        to_blank(header_step(RState { stage: ParseStage::Header(HeaderStage::Key), ..st1 }, buf))
    }
}

/// The line end of the status line.
pub open spec fn status_crlf_phase(st: RState, buf: Seq<u8>) -> DOut {
    let o = status_crlf(RState { stage: ParseStage::StatusCrlf, ..st }, buf);
    match o.1 {
        Ok(Some(rest)) => header_phase_with_init(o.0, rest),
        Ok(None) => (o.0, Ok(None)),
        Err(()) => (o.0, Err(())),
    }
}

/// The reason phrase, which is read and dropped.
pub open spec fn reason_phase(st: RState, buf: Seq<u8>) -> DOut {
    let st1 = RState { stage: ParseStage::Reason, ..st };
    match reason_at(buf, 0) {
        Tok::Complete(i, _) => status_crlf_phase(st1, from(buf, i)),
        Tok::Partial => (st1, Ok(None)),
        Tok::Invalid => (st1, Err(())),
    }
}

/// The status code.
pub open spec fn status_code_phase(st: RState, buf: Seq<u8>) -> DOut {
    let st1 = RState { stage: ParseStage::StatusCode, ..st };
    match status_tok_at(buf, 0) {
        Tok::Complete(i, j) => {
            let st2 = RState { rest: Seq::empty(), ..st1 };
            match status_of(st.rest + buf.subrange(0, i)) {
                Some(c) => reason_phase(RState { status: Some(c), ..st2 }, from(buf, j)),
                None => (st2, Err(())),
            }
        },
        Tok::Partial => (RState { rest: st.rest + buf, ..st1 }, Ok(None)),
        Tok::Invalid => (st1, Err(())),
    }
}

/// The octets of `HTTP/1.0`.
pub open spec fn http_1_0() -> Seq<u8> {
    seq![0x48u8, 0x54u8, 0x54u8, 0x50u8, 0x2fu8, 0x31u8, 0x2eu8, 0x30u8]
}

/// The octets of `HTTP/1.1`.
pub open spec fn http_1_1() -> Seq<u8> {
    seq![0x48u8, 0x54u8, 0x54u8, 0x50u8, 0x2fu8, 0x31u8, 0x2eu8, 0x31u8]
}

/// The version: `HTTP/1.0` or `HTTP/1.1`.
pub open spec fn version_phase(st: RState, buf: Seq<u8>) -> DOut {
    let st1 = RState { stage: ParseStage::Version, ..st };
    match status_tok_at(buf, 0) {
        Tok::Complete(i, j) => {
            let st2 = RState { rest: Seq::empty(), ..st1 };
            let v = st.rest + buf.subrange(0, i);
            if v == http_1_0() {
                status_code_phase(RState { version: Some(Version::HTTP1_0), ..st2 }, from(buf, j))
            } else if v == http_1_1() {
                status_code_phase(RState { version: Some(Version::HTTP1_1), ..st2 }, from(buf, j))
            } else {
                (st2, Err(()))
            }
        },
        Tok::Partial => (RState { rest: st.rest + buf, ..st1 }, Ok(None)),
        Tok::Invalid => (st1, Err(())),
    }
}

/// Decodes a piece of a response head.
pub open spec fn response_step(st: RState, buf: Seq<u8>) -> DOut {
    match st.stage {
        ParseStage::Initial => version_phase(st, buf),
        ParseStage::Version => version_phase(st, buf),
        ParseStage::StatusCode => status_code_phase(st, buf),
        ParseStage::Reason => reason_phase(st, buf),
        ParseStage::StatusCrlf => status_crlf_phase(st, buf),
        ParseStage::Header(_) => to_blank(header_step(st, buf)),
        ParseStage::BlankLine => blank_line_phase(st, buf),
    }
}

/// The outcome of a scan for the end of a token, in positions.
pub enum TokenStatus {
    /// The token ends at the first position; the rest starts at the second.
    Complete(usize, usize),
    /// The token goes on past the end of the input.
    Partial,
    /// A byte not allowed in the token.
    Invalid,
}

/// The abstract value of a scan outcome.
pub open spec fn tok_view(t: TokenStatus) -> Tok {
    match t {
        TokenStatus::Complete(i, j) => Tok::Complete(i as int, j as int),
        TokenStatus::Partial => Tok::Partial,
        TokenStatus::Invalid => Tok::Invalid,
    }
}

/// Scans a version or status code: it ends at a space.
fn status_token(buffer: &[u8]) -> (r: TokenStatus)
    ensures
        tok_view(r) == status_tok_at(buffer@, 0),
        r matches TokenStatus::Complete(i, j) ==> i < buffer@.len() && j == i + 1,
{
    let mut i: usize = 0;
    while i < buffer.len()
        invariant
            i <= buffer@.len(),
            status_tok_at(buffer@, 0) == status_tok_at(buffer@, i as int),
        decreases buffer@.len() - i,
    {
        let b = buffer[i];
        if b == 0x20 {
            return TokenStatus::Complete(i, i + 1);
        } else if !(0x1f < b && b < 0x7f) {
            return TokenStatus::Invalid;
        }
        i = i + 1;
    }
    TokenStatus::Partial
}

/// Scans a reason phrase: it ends before CR or LF.
fn decode_reason(buffer: &[u8]) -> (r: TokenStatus)
    ensures
        tok_view(r) == reason_at(buffer@, 0),
        r matches TokenStatus::Complete(i, j) ==> i < buffer@.len() && j == i,
{
    let mut i: usize = 0;
    while i < buffer.len()
        invariant
            i <= buffer@.len(),
            reason_at(buffer@, 0) == reason_at(buffer@, i as int),
        decreases buffer@.len() - i,
    {
        let b = buffer[i];
        if b == 0x0d || b == 0x0a {
            return TokenStatus::Complete(i, i);
        } else if !(b == 0x09 || b == 0x20 || (0x21 <= b && b <= 0x7e) || 0x80 <= b) {
            return TokenStatus::Invalid;
        }
        i = i + 1;
    }
    TokenStatus::Partial
}

/// Scans a field name: it ends at a colon.
fn get_header_name(buffer: &[u8]) -> (r: TokenStatus)
    ensures
        tok_view(r) == name_at(buffer@, 0),
        r matches TokenStatus::Complete(i, j) ==> i < buffer@.len() && j == i + 1,
{
    let mut i: usize = 0;
    while i < buffer.len()
        invariant
            i <= buffer@.len(),
            name_at(buffer@, 0) == name_at(buffer@, i as int),
        decreases buffer@.len() - i,
    {
        let b = buffer[i];
        if b == 0x3a {
            return TokenStatus::Complete(i, i + 1);
        }
        let ok = (0x30 <= b && b <= 0x39) || (0x41 <= b && b <= 0x5a) || (0x61 <= b && b <= 0x7a)
            || b == 0x21 || b == 0x23 || b == 0x24 || b == 0x25 || b == 0x26 || b == 0x27
            || b == 0x2a || b == 0x2b || b == 0x2d || b == 0x2e || b == 0x5e || b == 0x5f
            || b == 0x60 || b == 0x7c || b == 0x7e;
        if !ok {
            return TokenStatus::Invalid;
        }
        i = i + 1;
    }
    TokenStatus::Partial
}

/// Scans a field value: it ends before CR or LF.
fn get_header_value(buffer: &[u8]) -> (r: TokenStatus)
    ensures
        tok_view(r) == value_at(buffer@, 0),
        r matches TokenStatus::Complete(i, j) ==> i < buffer@.len() && j == i,
{
    let mut i: usize = 0;
    while i < buffer.len()
        invariant
            i <= buffer@.len(),
            value_at(buffer@, 0) == value_at(buffer@, i as int),
        decreases buffer@.len() - i,
    {
        let b = buffer[i];
        if b == 0x0d || b == 0x0a {
            return TokenStatus::Complete(i, i);
        } else if !(b == 0x09 || (0x20 <= b && b != 0x7f)) {
            return TokenStatus::Invalid;
        }
        i = i + 1;
    }
    TokenStatus::Partial
}

/// Passes blanks: the position of the first other byte, if any.
fn trim_ows(buffer: &[u8]) -> (r: Option<usize>)
    ensures
        match r {
            Some(i) => ows_at(buffer@, 0) == Some(i as int) && i < buffer@.len(),
            None => ows_at(buffer@, 0) is None,
        },
{
    let mut i: usize = 0;
    while i < buffer.len()
        invariant
            i <= buffer@.len(),
            ows_at(buffer@, 0) == ows_at(buffer@, i as int),
        decreases buffer@.len() - i,
    {
        let b = buffer[i];
        if !(b == 0x20 || b == 0x09) {
            return Some(i);
        }
        i = i + 1;
    }
    None
}

/// The outcome of reading a line end, in positions.
pub enum CrlfStatus {
    /// A line end; what follows starts at the position.
    Complete(usize),
    /// More input is needed; 1 when a CR was read.
    Partial(usize),
    /// Not a line end.
    Invalid,
}

/// The abstract value of a line-end outcome.
pub open spec fn crlf_view(c: CrlfStatus) -> CrlfR {
    match c {
        CrlfStatus::Complete(k) => CrlfR::Complete(k as int),
        CrlfStatus::Partial(s) => CrlfR::Partial(s as int),
        CrlfStatus::Invalid => CrlfR::Invalid,
    }
}

/// Reads a line end (CRLF or a bare LF); `cr_meet` if its CR ended the
/// previous piece.
fn consume_crlf(buffer: &[u8], cr_meet: bool) -> (r: CrlfStatus)
    ensures
        crlf_view(r) == crlf_of(buffer@, cr_meet),
        r matches CrlfStatus::Complete(k) ==> k <= buffer@.len(),
{
    if buffer.len() == 0 {
        return CrlfStatus::Partial(0);
    }
    if buffer[0] == 0x0d {
        if cr_meet {
            CrlfStatus::Invalid
        } else if buffer.len() == 1 {
            CrlfStatus::Partial(1)
        } else if buffer[1] == 0x0a {
            CrlfStatus::Complete(2)
        } else {
            CrlfStatus::Invalid
        }
    } else if buffer[0] == 0x0a {
        CrlfStatus::Complete(1)
    } else {
        CrlfStatus::Invalid
    }
}

/// `v` without its trailing blanks; empty when it is all blanks.
fn trim_end(v: &[u8]) -> (r: Vec<u8>)
    ensures
        r@ == rtrim(v@),
{
    let mut n: usize = v.len();
    assert(v@.subrange(0, n as int) =~= v@);
    while n > 0 && (v[n - 1] == 0x20 || v[n - 1] == 0x09)
        invariant
            n <= v@.len(),
            rtrim(v@) == rtrim(v@.subrange(0, n as int)),
        decreases n,
    {
        proof {
            let w = v@.subrange(0, n as int);
            assert(w.drop_last() =~= v@.subrange(0, n - 1));
        }
        n = n - 1;
    }
    proof {
        let w = v@.subrange(0, n as int);
        if n > 0 {
            assert(w.last() == v@[n - 1]);
        }
    }
    copy_bytes(&v[0..n])
}

/// The error of a response head that does not follow the syntax.
fn invalid_response() -> (e: HttpError)
    ensures
        e.kind == ErrorKind::H1(H1Error::InvalidResponse),
{
    HttpError::from_kind(ErrorKind::H1(H1Error::InvalidResponse))
}

/// The abstract value of a step outcome within the field lines.
pub open spec fn hres(r: Result<Option<&[u8]>, HttpError>) -> Result<Option<Seq<u8>>, ()> {
    match r {
        Ok(Some(b)) => Ok(Some(b@)),
        Ok(None) => Ok(None),
        Err(_) => Err(()),
    }
}

/// Errors are those of an invalid response.
pub open spec fn h1_err<T>(r: Result<T, HttpError>) -> bool {
    r matches Err(e) ==> e.kind == ErrorKind::H1(H1Error::InvalidResponse)
}

/// The abstract value of a decoded head.
pub open spec fn part_view(p: ResponsePart) -> PartV {
    (p.version, p.status.code(), p.headers.lines())
}

/// The abstract value of a decoding outcome.
pub open spec fn dres<'a>(r: Result<Option<(ResponsePart, &'a [u8])>, HttpError>) -> Result<Option<(PartV, Seq<u8>)>, ()> {
    match r {
        Ok(Some((p, b))) => Ok(Some((part_view(p), b@))),
        Ok(None) => Ok(None),
        Err(_) => Err(()),
    }
}

/// Reader of response heads, fed with pieces of input.
pub struct ResponseDecoder {
    stage: ParseStage,
    version: Option<Version>,
    status_code: Option<StatusCode>,
    headers: Option<Headers>,
    head_key: Vec<u8>,
    rest: Vec<u8>,
    new_line: bool,
}

impl ResponseDecoder {
    /// The abstract state.
    pub closed spec fn st(&self) -> RState {
        RState {
            stage: self.stage,
            version: self.version,
            status: match self.status_code {
                Some(c) => Some(c.code()),
                None => None,
            },
            lines: match self.headers {
                Some(h) => Some(h.lines()),
                None => None,
            },
            head_key: self.head_key@,
            rest: self.rest@,
            new_line: self.new_line,
        }
    }

    /// What is read so far is consistent with the part being read.
    pub closed spec fn wf(&self) -> bool {
        &&& self.stage == ParseStage::StatusCode ==> self.version is Some
        &&& (self.stage == ParseStage::Reason || self.stage == ParseStage::StatusCrlf)
            ==> self.version is Some && self.status_code is Some
        &&& self.stage is Header ==> self.version is Some && self.status_code is Some && self.headers is Some
        &&& self.stage == ParseStage::BlankLine ==> (self.version is Some && self.status_code is Some && self.headers is Some)
            || (self.version is None && self.status_code is None && self.headers is None)
    }

    /// The head was handed out; nothing more is to be decoded.
    pub closed spec fn is_done(&self) -> bool {
        self.stage == ParseStage::BlankLine && self.version is None
    }

    /// Creates a decoder.
    pub fn new() -> (r: ResponseDecoder)
        ensures
            r.wf(),
            !r.is_done(),
            r.st() == (RState {
                stage: ParseStage::Initial,
                version: None,
                status: None,
                lines: None,
                head_key: Seq::empty(),
                rest: Seq::empty(),
                new_line: false,
            }),
    {
        let r = ResponseDecoder {
            stage: ParseStage::Initial,
            version: None,
            status_code: None,
            headers: None,
            head_key: Vec::new(),
            rest: Vec::new(),
            new_line: false,
        };
        assert(r.st() =~= (RState {
            stage: ParseStage::Initial,
            version: None,
            status: None,
            lines: None,
            head_key: Seq::empty(),
            rest: Seq::empty(),
            new_line: false,
        }));
        r
    }

    /// The cut-off start of a token joined with its end, and cleared.
    fn take_value(&mut self, value: &[u8]) -> (r: Vec<u8>)
        ensures
            r@ == old(self).rest@ + value@,
            final(self).st() == (RState { rest: Seq::empty(), ..old(self).st() }),
            final(self).stage == old(self).stage,
            final(self).version == old(self).version,
            final(self).status_code == old(self).status_code,
            final(self).headers == old(self).headers,
    {
        let mut r = Vec::new();
        std::mem::swap(&mut r, &mut self.rest);
        push_bytes(&mut r, value);
        assert(self.st() =~= (RState { rest: Seq::empty(), ..old(self).st() }));
        r
    }
}


impl ResponseDecoder {
    /// Reads a field name.
    fn decode_key<'a>(&mut self, buffer: &'a [u8]) -> (r: Result<Option<&'a [u8]>, HttpError>)
        ensures
            final(self).st() == key_step(old(self).st(), buffer@).0,
            hres(r) == key_step(old(self).st(), buffer@).1,
            h1_err(r),
            r matches Ok(Some(b)) ==> b@.len() < buffer@.len(),
            final(self).version == old(self).version,
            final(self).status_code == old(self).status_code,
            final(self).headers == old(self).headers,
    {
        self.stage = ParseStage::Header(HeaderStage::Key);
        match get_header_name(buffer) {
            TokenStatus::Complete(i, j) => {
                let key = self.take_value(&buffer[0..i]);
                self.head_key = key;
                Ok(Some(&buffer[j..buffer.len()]))
            },
            TokenStatus::Partial => {
                push_bytes(&mut self.rest, buffer);
                Ok(None)
            },
            TokenStatus::Invalid => Err(invalid_response()),
        }
    }

    /// Passes the blanks before a value.
    fn decode_ows<'a>(&mut self, buffer: &'a [u8]) -> (r: Result<Option<&'a [u8]>, HttpError>)
        ensures
            final(self).st() == ows_step(old(self).st(), buffer@).0,
            hres(r) == ows_step(old(self).st(), buffer@).1,
            r is Ok,
            r matches Ok(Some(b)) ==> b@.len() <= buffer@.len(),
            final(self).version == old(self).version,
            final(self).status_code == old(self).status_code,
            final(self).headers == old(self).headers,
    {
        self.stage = ParseStage::Header(HeaderStage::OwsBefore);
        match trim_ows(buffer) {
            Some(i) => Ok(Some(&buffer[i..buffer.len()])),
            None => Ok(None),
        }
    }

    /// Reads a field value and records the field line.
    fn decode_value<'a>(&mut self, buffer: &'a [u8]) -> (r: Result<Option<&'a [u8]>, HttpError>)
        ensures
            final(self).st() == value_step(old(self).st(), buffer@).0,
            hres(r) == value_step(old(self).st(), buffer@).1,
            h1_err(r),
            r matches Ok(Some(b)) ==> b@.len() <= buffer@.len(),
            final(self).version == old(self).version,
            final(self).status_code == old(self).status_code,
            old(self).headers is Some ==> final(self).headers is Some,
    {
        self.stage = ParseStage::Header(HeaderStage::Value);
        match get_header_value(buffer) {
            TokenStatus::Complete(i, j) => {
                let complete_value = self.take_value(&buffer[0..i]);
                let header_value = trim_end(complete_value.as_slice());
                let mut key: Vec<u8> = Vec::new();
                std::mem::swap(&mut key, &mut self.head_key);
                let mut headers = match self.headers.take() {
                    Some(h) => h,
                    None => Headers::new(),
                };
                header_insert(key.as_slice(), header_value.as_slice(), &mut headers);
                self.headers = Some(headers);
                Ok(Some(&buffer[j..buffer.len()]))
            },
            TokenStatus::Partial => {
                push_bytes(&mut self.rest, buffer);
                Ok(None)
            },
            TokenStatus::Invalid => Err(invalid_response()),
        }
    }

    /// Reads the line end of a field line.
    fn decode_crlf<'a>(&mut self, buffer: &'a [u8]) -> (r: Result<Option<&'a [u8]>, HttpError>)
        ensures
            final(self).st() == crlf_step(old(self).st(), buffer@).0,
            hres(r) == crlf_step(old(self).st(), buffer@).1,
            h1_err(r),
            r matches Ok(Some(b)) ==> b@.len() <= buffer@.len(),
            final(self).version == old(self).version,
            final(self).status_code == old(self).status_code,
            final(self).headers == old(self).headers,
    {
        self.stage = ParseStage::Header(HeaderStage::Crlf);
        match consume_crlf(buffer, false) {
            CrlfStatus::Complete(k) => {
                self.new_line = false;
                Ok(Some(&buffer[k..buffer.len()]))
            },
            CrlfStatus::Partial(step) => {
                if step == 1 {
                    self.new_line = true;
                }
                Ok(None)
            },
            CrlfStatus::Invalid => Err(invalid_response()),
        }
    }
}

impl ResponseDecoder {
    /// Field lines from a name on.
    fn decode_header_from_key<'a>(&mut self, buffer: &'a [u8]) -> (r: Result<Option<&'a [u8]>, HttpError>)
        requires
            old(self).headers is Some,
        ensures
            final(self).st() == from_key(old(self).st(), buffer@).0,
            hres(r) == from_key(old(self).st(), buffer@).1,
            h1_err(r),
            r matches Ok(Some(b)) ==> b@.len() <= buffer@.len(),
            final(self).version == old(self).version,
            final(self).status_code == old(self).status_code,
            final(self).headers is Some,
    {
        let mut buf = buffer;
        loop
            invariant
                from_key(old(self).st(), buffer@) == from_key(self.st(), buf@),
                buf@.len() <= buffer@.len(),
                self.version == old(self).version,
                self.status_code == old(self).status_code,
                self.headers is Some,
            decreases buf@.len(),
        {
            let ghost st0 = self.st();
            let ghost n0 = buf@.len();
            let b1 = match self.decode_key(buf) {
                Err(e) => return Err(e),
                Ok(None) => return Ok(None),
                Ok(Some(b)) => b,
            };
            let ghost o1 = key_step(st0, buf@);
            let b2 = match self.decode_ows(b1) {
                Err(e) => return Err(e),
                Ok(None) => return Ok(None),
                Ok(Some(b)) => b,
            };
            let ghost o2 = ows_step(o1.0, b1@);
            let ghost o3 = value_step(o2.0, b2@);
            assert(from_key(st0, buf@) == after_value(o3, n0 as nat));
            let b3 = match self.decode_value(b2) {
                Err(e) => return Err(e),
                Ok(None) => return Ok(None),
                Ok(Some(b)) => b,
            };
            let ghost o4 = crlf_step(o3.0, b3@);
            assert(after_value(o3, n0 as nat) == after_crlf(o4, n0 as nat));
            let b4 = match self.decode_crlf(b3) {
                Err(e) => return Err(e),
                Ok(None) => return Ok(None),
                Ok(Some(b)) => b,
            };
            if b4.len() == 0 {
                self.stage = ParseStage::Header(HeaderStage::EndCrlf);
                assert(self.st() =~= (detect_blank(o4.0, b4@)->0).0);
                return Ok(None);
            }
            if b4[0] == 0x0d || b4[0] == 0x0a {
                return Ok(Some(b4));
            }
            assert(after_crlf(o4, n0 as nat) == from_key(o4.0, b4@));
            buf = b4;
        }
    }

    /// Field lines from the blanks before a value on.
    fn decode_header_from_ows_before<'a>(&mut self, buffer: &'a [u8]) -> (r: Result<Option<&'a [u8]>, HttpError>)
        requires
            old(self).headers is Some,
        ensures
            final(self).st() == from_ows(old(self).st(), buffer@).0,
            hres(r) == from_ows(old(self).st(), buffer@).1,
            h1_err(r),
            r matches Ok(Some(b)) ==> b@.len() <= buffer@.len(),
            final(self).version == old(self).version,
            final(self).status_code == old(self).status_code,
            final(self).headers is Some,
    {
        let ghost st0 = self.st();
        let b2 = match self.decode_ows(buffer) {
            Err(e) => return Err(e),
            Ok(None) => return Ok(None),
            Ok(Some(b)) => b,
        };
        self.decode_header_from_value(b2, Ghost((buffer@.len() + 1) as nat))
    }

    /// Field lines from a value on, where `bound` is longer than `buffer`.
    fn decode_header_from_value<'a>(&mut self, buffer: &'a [u8], Ghost(bound): Ghost<nat>) -> (r: Result<Option<&'a [u8]>, HttpError>)
        requires
            old(self).headers is Some,
            buffer@.len() < bound,
        ensures
            final(self).st() == after_value(value_step(old(self).st(), buffer@), bound).0,
            hres(r) == after_value(value_step(old(self).st(), buffer@), bound).1,
            h1_err(r),
            r matches Ok(Some(b)) ==> b@.len() <= buffer@.len(),
            final(self).version == old(self).version,
            final(self).status_code == old(self).status_code,
            final(self).headers is Some,
    {
        let ghost st0 = self.st();
        let ghost o3 = value_step(st0, buffer@);
        let b3 = match self.decode_value(buffer) {
            Err(e) => return Err(e),
            Ok(None) => return Ok(None),
            Ok(Some(b)) => b,
        };
        self.decode_header_from_crlf(b3, Ghost(bound))
    }

    /// Field lines from a line end on, where `bound` is longer than
    /// `buffer`.
    fn decode_header_from_crlf<'a>(&mut self, buffer: &'a [u8], Ghost(bound): Ghost<nat>) -> (r: Result<Option<&'a [u8]>, HttpError>)
        requires
            old(self).headers is Some,
            buffer@.len() < bound,
        ensures
            final(self).st() == after_crlf(crlf_step(old(self).st(), buffer@), bound).0,
            hres(r) == after_crlf(crlf_step(old(self).st(), buffer@), bound).1,
            h1_err(r),
            r matches Ok(Some(b)) ==> b@.len() <= buffer@.len(),
            final(self).version == old(self).version,
            final(self).status_code == old(self).status_code,
            final(self).headers is Some,
    {
        let ghost st0 = self.st();
        let b4 = match self.decode_crlf(buffer) {
            Err(e) => return Err(e),
            Ok(None) => return Ok(None),
            Ok(Some(b)) => b,
        };
        self.decode_header_from_crlf_end(b4, Ghost(bound))
    }

    /// Field lines after a line end, where `bound` is longer than `buffer`.
    fn decode_header_from_crlf_end<'a>(&mut self, buffer: &'a [u8], Ghost(bound): Ghost<nat>) -> (r: Result<Option<&'a [u8]>, HttpError>)
        requires
            old(self).headers is Some,
            buffer@.len() < bound,
        ensures
            final(self).st() == after_crlf((old(self).st(), Ok::<Option<Seq<u8>>, ()>(Some(buffer@))), bound).0,
            hres(r) == after_crlf((old(self).st(), Ok::<Option<Seq<u8>>, ()>(Some(buffer@))), bound).1,
            h1_err(r),
            r matches Ok(Some(b)) ==> b@.len() <= buffer@.len(),
            final(self).version == old(self).version,
            final(self).status_code == old(self).status_code,
            final(self).headers is Some,
    {
        if buffer.len() == 0 {
            self.stage = ParseStage::Header(HeaderStage::EndCrlf);
            assert(self.st() =~= (detect_blank(old(self).st(), buffer@)->0).0);
            return Ok(None);
        }
        if buffer[0] == 0x0d || buffer[0] == 0x0a {
            return Ok(Some(buffer));
        }
        self.decode_header_from_key(buffer)
    }
}

impl ResponseDecoder {
    /// Reads a line end that ends the status line or the head.
    fn decode_status_crlf<'a>(&mut self, buffer: &'a [u8]) -> (r: Result<Option<&'a [u8]>, HttpError>)
        ensures
            final(self).st() == status_crlf(old(self).st(), buffer@).0,
            hres(r) == status_crlf(old(self).st(), buffer@).1,
            h1_err(r),
            final(self).stage == old(self).stage,
            final(self).version == old(self).version,
            final(self).status_code == old(self).status_code,
            final(self).headers == old(self).headers,
    {
        let cr_meet = self.new_line;
        self.new_line = false;
        match consume_crlf(buffer, cr_meet) {
            CrlfStatus::Complete(k) => {
                self.new_line = false;
                Ok(Some(&buffer[k..buffer.len()]))
            },
            CrlfStatus::Partial(step) => {
                if step == 0 {
                    Ok(None)
                } else if step == 1 {
                    self.new_line = true;
                    Ok(None)
                } else {
                    Err(invalid_response())
                }
            },
            CrlfStatus::Invalid => Err(invalid_response()),
        }
    }

    /// The empty line that ends the head; then the head is handed out.
    fn blank_line_phase<'a>(&mut self, buffer: &'a [u8]) -> (r: Result<Option<(ResponsePart, &'a [u8])>, HttpError>)
        requires
            old(self).version is Some,
            old(self).status_code is Some,
            old(self).headers is Some,
        ensures
            final(self).st() == blank_line_phase(old(self).st(), buffer@).0,
            dres(r) == blank_line_phase(old(self).st(), buffer@).1,
            h1_err(r),
            final(self).wf(),
            final(self).is_done() == (r matches Ok(Some(_))),
    {
        self.stage = ParseStage::BlankLine;
        match self.decode_status_crlf(buffer) {
            Err(e) => Err(e),
            Ok(None) => Ok(None),
            Ok(Some(unparsed)) => {
                let version = self.version.take().unwrap();
                let status = self.status_code.take().unwrap();
                let headers = self.headers.take().unwrap();
                let part = ResponsePart { version, status, headers };
                Ok(Some((part, unparsed)))
            },
        }
    }

    /// Field lines, by the part being read.
    fn decode_header<'a>(&mut self, buffer: &'a [u8]) -> (r: Result<Option<&'a [u8]>, HttpError>)
        requires
            old(self).headers is Some,
        ensures
            final(self).st() == header_step(old(self).st(), buffer@).0,
            hres(r) == header_step(old(self).st(), buffer@).1,
            h1_err(r),
            final(self).version == old(self).version,
            final(self).status_code == old(self).status_code,
            final(self).headers is Some,
    {
        match self.stage {
            ParseStage::Header(HeaderStage::Start) => {
                if buffer.len() == 0 {
                    Ok(None)
                } else if buffer[0] == 0x0d || buffer[0] == 0x0a {
                    Ok(Some(buffer))
                } else {
                    self.decode_header_from_key(buffer)
                }
            },
            ParseStage::Header(HeaderStage::Key) => self.decode_header_from_key(buffer),
            ParseStage::Header(HeaderStage::OwsBefore) => self.decode_header_from_ows_before(buffer),
            ParseStage::Header(HeaderStage::Value) => self.decode_header_from_value(buffer, Ghost((buffer@.len() + 1) as nat)),
            ParseStage::Header(HeaderStage::Crlf) => self.decode_header_from_crlf(buffer, Ghost((buffer@.len() + 1) as nat)),
            ParseStage::Header(HeaderStage::EndCrlf) => self.decode_header_from_crlf_end(buffer, Ghost((buffer@.len() + 1) as nat)),
            _ => Err(invalid_response()),
        }
    }

    /// Field lines, then the empty line.
    fn header_phase<'a>(&mut self, buffer: &'a [u8]) -> (r: Result<Option<(ResponsePart, &'a [u8])>, HttpError>)
        requires
            old(self).stage is Header,
            old(self).version is Some,
            old(self).status_code is Some,
            old(self).headers is Some,
        ensures
            final(self).st() == to_blank(header_step(old(self).st(), buffer@)).0,
            dres(r) == to_blank(header_step(old(self).st(), buffer@)).1,
            h1_err(r),
            final(self).wf(),
            final(self).is_done() == (r matches Ok(Some(_))),
    {
        match self.decode_header(buffer) {
            Err(e) => Err(e),
            Ok(None) => Ok(None),
            Ok(Some(unparsed)) => self.blank_line_phase(unparsed),
        }
    }

    /// The field lines after the status line.
    fn header_phase_with_init<'a>(&mut self, buffer: &'a [u8]) -> (r: Result<Option<(ResponsePart, &'a [u8])>, HttpError>)
        requires
            old(self).version is Some,
            old(self).status_code is Some,
        ensures
            final(self).st() == header_phase_with_init(old(self).st(), buffer@).0,
            dres(r) == header_phase_with_init(old(self).st(), buffer@).1,
            h1_err(r),
            final(self).wf(),
            final(self).is_done() == (r matches Ok(Some(_))),
    {
        self.headers = Some(Headers::new());
        if buffer.len() == 0 {
            self.stage = ParseStage::Header(HeaderStage::Start);
            return Ok(None);
        } else if buffer[0] == 0x0d || buffer[0] == 0x0a {
            return self.blank_line_phase(buffer);
        }
        self.stage = ParseStage::Header(HeaderStage::Key);
        self.header_phase(buffer)
    }

    /// The line end of the status line.
    fn status_crlf_phase<'a>(&mut self, buffer: &'a [u8]) -> (r: Result<Option<(ResponsePart, &'a [u8])>, HttpError>)
        requires
            old(self).version is Some,
            old(self).status_code is Some,
        ensures
            final(self).st() == status_crlf_phase(old(self).st(), buffer@).0,
            dres(r) == status_crlf_phase(old(self).st(), buffer@).1,
            h1_err(r),
            final(self).wf(),
            final(self).is_done() == (r matches Ok(Some(_))),
    {
        self.stage = ParseStage::StatusCrlf;
        match self.decode_status_crlf(buffer) {
            Err(e) => Err(e),
            Ok(None) => Ok(None),
            Ok(Some(unparsed)) => self.header_phase_with_init(unparsed),
        }
    }

    /// The reason phrase, read and dropped.
    fn reason_phase<'a>(&mut self, buffer: &'a [u8]) -> (r: Result<Option<(ResponsePart, &'a [u8])>, HttpError>)
        requires
            old(self).version is Some,
            old(self).status_code is Some,
        ensures
            final(self).st() == reason_phase(old(self).st(), buffer@).0,
            dres(r) == reason_phase(old(self).st(), buffer@).1,
            h1_err(r),
            final(self).wf(),
            final(self).is_done() == (r matches Ok(Some(_))),
    {
        self.stage = ParseStage::Reason;
        match decode_reason(buffer) {
            TokenStatus::Complete(i, _) => self.status_crlf_phase(&buffer[i..buffer.len()]),
            TokenStatus::Partial => Ok(None),
            TokenStatus::Invalid => Err(invalid_response()),
        }
    }

    /// The status code.
    fn status_code_phase<'a>(&mut self, buffer: &'a [u8]) -> (r: Result<Option<(ResponsePart, &'a [u8])>, HttpError>)
        requires
            old(self).version is Some,
        ensures
            final(self).st() == status_code_phase(old(self).st(), buffer@).0,
            dres(r) == status_code_phase(old(self).st(), buffer@).1,
            h1_err(r),
            final(self).wf(),
            final(self).is_done() == (r matches Ok(Some(_))),
    {
        self.stage = ParseStage::StatusCode;
        match status_token(buffer) {
            TokenStatus::Complete(i, j) => {
                let code = self.take_value(&buffer[0..i]);
                match StatusCode::from_bytes(code.as_slice()) {
                    Ok(c) => {
                        self.status_code = Some(c);
                        self.reason_phase(&buffer[j..buffer.len()])
                    },
                    Err(_) => Err(invalid_response()),
                }
            },
            TokenStatus::Partial => {
                push_bytes(&mut self.rest, buffer);
                Ok(None)
            },
            TokenStatus::Invalid => Err(invalid_response()),
        }
    }

    /// The version: `HTTP/1.0` or `HTTP/1.1`.
    fn version_phase<'a>(&mut self, buffer: &'a [u8]) -> (r: Result<Option<(ResponsePart, &'a [u8])>, HttpError>)
        requires
            old(self).stage == ParseStage::Initial || old(self).stage == ParseStage::Version,
        ensures
            final(self).st() == version_phase(old(self).st(), buffer@).0,
            dres(r) == version_phase(old(self).st(), buffer@).1,
            h1_err(r),
            final(self).wf(),
            final(self).is_done() == (r matches Ok(Some(_))),
    {
        self.stage = ParseStage::Version;
        match status_token(buffer) {
            TokenStatus::Complete(i, j) => {
                let version = self.take_value(&buffer[0..i]);
                let v10: [u8; 8] = [0x48, 0x54, 0x54, 0x50, 0x2f, 0x31, 0x2e, 0x30];
                let v11: [u8; 8] = [0x48, 0x54, 0x54, 0x50, 0x2f, 0x31, 0x2e, 0x31];
                assert(v10@ =~= http_1_0());
                assert(v11@ =~= http_1_1());
                if bytes_eq(version.as_slice(), &v10) {
                    self.version = Some(Version::HTTP1_0);
                } else if bytes_eq(version.as_slice(), &v11) {
                    self.version = Some(Version::HTTP1_1);
                } else {
                    return Err(invalid_response());
                }
                self.status_code_phase(&buffer[j..buffer.len()])
            },
            TokenStatus::Partial => {
                push_bytes(&mut self.rest, buffer);
                Ok(None)
            },
            TokenStatus::Invalid => Err(invalid_response()),
        }
    }

    /// Decodes a piece of a response head. While more input is needed the
    /// result is `None`; once the head is complete, it is handed out with
    /// the input after it, and the decoder is done. Input that does not
    /// follow the syntax is refused.
    pub fn decode<'a>(&mut self, buf: &'a [u8]) -> (r: Result<Option<(ResponsePart, &'a [u8])>, HttpError>)
        requires
            old(self).wf(),
            !old(self).is_done(),
        ensures
            final(self).st() == response_step(old(self).st(), buf@).0,
            dres(r) == response_step(old(self).st(), buf@).1,
            h1_err(r),
            final(self).wf(),
            final(self).is_done() == (r matches Ok(Some(_))),
    {
        match self.stage {
            ParseStage::Initial => self.version_phase(buf),
            ParseStage::Version => self.version_phase(buf),
            ParseStage::StatusCode => self.status_code_phase(buf),
            ParseStage::Reason => self.reason_phase(buf),
            ParseStage::StatusCrlf => self.status_crlf_phase(buf),
            ParseStage::Header(_) => self.header_phase(buf),
            ParseStage::BlankLine => self.blank_line_phase(buf),
        }
    }
}

impl Default for ResponseDecoder {
    fn default() -> (r: ResponseDecoder)
        ensures
            r.wf(),
            !r.is_done(),
            r.st() == (RState {
                stage: ParseStage::Initial,
                version: None,
                status: None,
                lines: None,
                head_key: Seq::empty(),
                rest: Seq::empty(),
                new_line: false,
            }),
    {
        ResponseDecoder::new()
    }
}

/// Records a field line under its lower-cased name; a value for a name
/// already present is joined to the earlier one.
fn header_insert(header_name: &[u8], header_value: &[u8], headers: &mut Headers)
    ensures
        final(headers).lines() == appended(old(headers).lines(), lower_seq(header_name@), header_value@),
{
    headers.append(header_name, header_value);
}


} // verus!
