//! `multipart/form-data` messages: parts with a name, a file name, a media
//! type and a body, framed by a random boundary.
use vstd::prelude::*;
use vstd::string::*;
use vstd::utf8::*;
use crate::bytes::{ascii_bytes, lit, push_bytes, write_piece};
use std::collections::hash_map::RandomState;
use std::hash::BuildHasher;

verus! {

broadcast use vstd::string::group_string_axioms;

/// `RandomState::new`: a hasher builder with fresh random keys. Nothing is
/// stated of the keys.
#[verifier::external_body]
fn new_random_state() -> (r: RandomState) {
    RandomState::new()
}

/// `BuildHasher::hash_one` of a count under the keys of `state`: what a
/// fresh hasher of `state` gives after `write_usize(count)` and `finish`.
/// The digest depends on the random keys, so nothing is stated of it.
#[verifier::external_body]
fn hash_count(state: &RandomState, count: usize) -> (r: u64) {
    state.hash_one(count)
}

/// `String::from_utf8`: the text that `bytes` encode, when they are valid
/// UTF-8, and nothing otherwise (the standard library documents that it
/// fails exactly on invalid UTF-8 and does not copy or change the bytes).
#[verifier::external_body]
fn string_from_utf8(bytes: Vec<u8>) -> (r: Option<String>)
    ensures
        r is Some <==> valid_utf8(bytes@),
        r matches Some(s) ==> s@ == decode_utf8(bytes@),
{
    String::from_utf8(bytes).ok()
}

/// The octets of a text: its UTF-8 encoding.
pub open spec fn text_bytes(s: String) -> Seq<u8> {
    encode_utf8(s@)
}

/// One step of the xorshift generator.
pub open spec fn xor_step(n: u64) -> u64 {
    let a = n ^ (n >> 12u64);
    let b = a ^ (a << 25u64);
    b ^ (b >> 27u64)
}

/// The output that the generator draws from a state.
pub open spec fn scramble(n: u64) -> u64 {
    n.wrapping_mul(0x2545_f491_4f6c_dd1du64)
}

/// The lower-case hexadecimal digit of a value below 16.
pub open spec fn hex_char(d: nat) -> u8 {
    if d < 10 { (0x30 + d) as u8 } else { (0x61 + d - 10) as u8 }
}

/// The last `k` hexadecimal digits of `n`, most significant first.
pub open spec fn hex_fixed(n: nat, k: nat) -> Seq<u8>
    decreases k,
{
    if k == 0 {
        Seq::empty()
    } else {
        hex_fixed(n / 16, (k - 1) as nat).push(hex_char(n % 16))
    }
}

/// `n` in sixteen lower-case hexadecimal digits.
pub open spec fn hex16(n: u64) -> Seq<u8> {
    hex_fixed(n as nat, 16)
}

/// The boundary drawn from a seed: the next four outputs of the generator,
/// each in sixteen hexadecimal digits, joined by `-`.
pub open spec fn boundary_bytes(seed: u64) -> Seq<u8> {
    let s1 = xor_step(seed);
    let s2 = xor_step(s1);
    let s3 = xor_step(s2);
    let s4 = xor_step(s3);
    hex16(scramble(s1)) + seq![0x2du8] + hex16(scramble(s2)) + seq![0x2du8] + hex16(scramble(s3))
        + seq![0x2du8] + hex16(scramble(s4))
}

proof fn lemma_hex_ascii(n: nat, k: nat)
    ensures
        hex_fixed(n, k).len() == k,
        forall|i: int| 0 <= i < k ==> #[trigger] hex_fixed(n, k)[i] <= 0x7f,
    decreases k,
{
    if k > 0 {
        lemma_hex_ascii(n / 16, (k - 1) as nat);
    }
}

proof fn lemma_boundary_ascii(seed: u64)
    ensures
        boundary_bytes(seed).len() == 67,
        forall|i: int| 0 <= i < 67 ==> #[trigger] boundary_bytes(seed)[i] <= 0x7f,
{
    let s1 = xor_step(seed);
    let s2 = xor_step(s1);
    let s3 = xor_step(s2);
    let s4 = xor_step(s3);
    lemma_hex_ascii(scramble(s1) as nat, 16);
    lemma_hex_ascii(scramble(s2) as nat, 16);
    lemma_hex_ascii(scramble(s3) as nat, 16);
    lemma_hex_ascii(scramble(s4) as nat, 16);
    let b = boundary_bytes(seed);
    assert forall|i: int| 0 <= i < 67 implies #[trigger] b[i] <= 0x7f by {
        if i < 16 {
            assert(b[i] == hex16(scramble(s1))[i]);
        } else if i == 16 || i == 33 || i == 50 {
        } else if i < 33 {
            assert(b[i] == hex16(scramble(s2))[i - 17]);
        } else if i < 50 {
            assert(b[i] == hex16(scramble(s3))[i - 34]);
        } else {
            assert(b[i] == hex16(scramble(s4))[i - 51]);
        }
    }
}

/// Bytes that are all ASCII are valid UTF-8.
proof fn lemma_ascii_valid(b: Seq<u8>)
    requires
        forall|i: int| 0 <= i < b.len() ==> #[trigger] b[i] <= 0x7f,
    ensures
        valid_utf8(b),
{
    assert(b.subrange(0, 0) =~= Seq::<u8>::empty());
    assert(valid_utf8(Seq::<u8>::empty()));
    assert(forall|i: int| 0 <= 0 <= i < b.len() <= b.len() ==> #[trigger] is_leading_byte_width_1(b[i]));
    partial_valid_utf8_extend_ascii_block(b, 0, b.len() as int);
    assert(b.subrange(0, b.len() as int) =~= b);
}

/// Appends the last `k` hexadecimal digits of `n`.
fn push_hex(out: &mut Vec<u8>, n: u64, k: usize)
    ensures
        final(out)@ == old(out)@ + hex_fixed(n as nat, k as nat),
    decreases k,
{
    if k > 0 {
        push_hex(out, n / 16, k - 1);
        let d = n % 16;
        let c: u8 = if d < 10 { 0x30 + d as u8 } else { 0x61 + (d - 10) as u8 };
        out.push(c);
        assert(out@ =~= old(out)@ + hex_fixed(n as nat, k as nat));
    }
}

/// The boundary drawn from `seed` (see [`boundary_bytes`]).
pub fn boundary_from_seed(seed: u64) -> (r: String)
    ensures
        text_bytes(r) == boundary_bytes(seed),
{
    let mut out: Vec<u8> = Vec::new();
    let mut n = seed;
    let mut k: usize = 0;
    while k < 4
        invariant
            k <= 4,
            n == (if k == 0 { seed } else if k == 1 { xor_step(seed) } else if k == 2 {
                xor_step(xor_step(seed))
            } else if k == 3 { xor_step(xor_step(xor_step(seed))) } else {
                xor_step(xor_step(xor_step(xor_step(seed))))
            }),
            k == 0 ==> out@ == Seq::<u8>::empty(),
            k == 1 ==> out@ == hex16(scramble(xor_step(seed))),
            k == 2 ==> out@ == hex16(scramble(xor_step(seed))) + seq![0x2du8] + hex16(
                scramble(xor_step(xor_step(seed))),
            ),
            k == 3 ==> out@ == hex16(scramble(xor_step(seed))) + seq![0x2du8] + hex16(
                scramble(xor_step(xor_step(seed))),
            ) + seq![0x2du8] + hex16(scramble(xor_step(xor_step(xor_step(seed))))),
            k == 4 ==> out@ == boundary_bytes(seed),
        decreases 4 - k,
    {
        n = n ^ (n >> 12u64);
        n = n ^ (n << 25u64);
        n = n ^ (n >> 27u64);
        let v = n.wrapping_mul(0x2545_f491_4f6c_dd1d);
        if k > 0 {
            out.push(0x2d);
        }
        push_hex(&mut out, v, 16);
        k = k + 1;
    }
    proof {
        lemma_boundary_ascii(seed);
        lemma_ascii_valid(out@);
        decode_utf8_encode_utf8(out@);
    }
    match string_from_utf8(out) {
        Some(s) => s,
        None => {
            proof {
                assert(false);
            }
            String::new()
        },
    }
}

/// A random seed that is not zero: the digest of the first count, from 1
/// up, whose digest under fresh random keys is not zero (1 should every
/// count up to the largest `usize` hash to zero).
fn random_seed() -> (r: u64)
    ensures
        r != 0,
{
    let state = new_random_state();
    let mut count: usize = 1;
    loop
        invariant
            1 <= count,
        decreases usize::MAX - count,
    {
        let out = hash_count(&state, count);
        if out != 0 {
            return out;
        }
        if count == usize::MAX {
            return 1;
        }
        count = count + 1;
    }
}

/// A fresh boundary: the one drawn from a random seed that is not zero.
pub fn gen_boundary() -> (r: String)
    ensures
        exists|seed: u64| seed != 0 && text_bytes(r) == #[trigger] boundary_bytes(seed),
{
    let seed = random_seed();
    let r = boundary_from_seed(seed);
    assert(text_bytes(r) == boundary_bytes(seed));
    r
}

/// A part of a `multipart/form-data` message: its name and file name (in
/// `Content-Disposition`), its media type (in `Content-Type`), the length
/// that it declares, and its body.
pub struct Part {
    /// The name of the field.
    pub name: Option<String>,
    /// The name of the file sent.
    pub file_name: Option<String>,
    /// The media type of the body.
    pub mime: Option<String>,
    /// The length of the body.
    pub length: Option<u64>,
    /// The body.
    pub body: Option<Vec<u8>>,
}

/// A part with nothing set.
pub open spec fn empty_part(p: Part) -> bool {
    &&& p.name is None
    &&& p.file_name is None
    &&& p.mime is None
    &&& p.length is None
    &&& p.body is None
}

impl Part {
    /// Creates a part with nothing set.
    pub fn new() -> (r: Part)
        ensures
            empty_part(r),
    {
        Part { name: None, file_name: None, mime: None, length: None, body: None }
    }

    /// Sets the name, sent in the `Content-Disposition` header.
    pub fn name(self, name: &str) -> (r: Part)
        ensures
            r.name matches Some(s) && s@ == name@,
            r.file_name == self.file_name,
            r.mime == self.mime,
            r.length == self.length,
            r.body == self.body,
    {
        Part { name: Some(name.to_owned()), ..self }
    }

    /// Sets the file name, sent in the `Content-Disposition` header.
    pub fn file_name(self, file_name: &str) -> (r: Part)
        ensures
            r.file_name matches Some(s) && s@ == file_name@,
            r.name == self.name,
            r.mime == self.mime,
            r.length == self.length,
            r.body == self.body,
    {
        Part { file_name: Some(file_name.to_owned()), ..self }
    }

    /// Sets the media type, sent in the `Content-Type` header.
    pub fn mime(self, mime: &str) -> (r: Part)
        ensures
            r.mime matches Some(s) && s@ == mime@,
            r.name == self.name,
            r.file_name == self.file_name,
            r.length == self.length,
            r.body == self.body,
    {
        Part { mime: Some(mime.to_owned()), ..self }
    }

    /// Sets the length of the body.
    pub fn length(self, length: Option<u64>) -> (r: Part)
        ensures
            r.length == length,
            r.name == self.name,
            r.file_name == self.file_name,
            r.mime == self.mime,
            r.body == self.body,
    {
        Part { length, ..self }
    }

    /// Sets the body, and its length as the length.
    pub fn body(self, body: &[u8]) -> (r: Part)
        ensures
            r.body matches Some(v) && v@ == body@,
            r.length == Some(body@.len() as u64),
            r.name == self.name,
            r.file_name == self.file_name,
            r.mime == self.mime,
    {
        let v = crate::bytes::copy_bytes(body);
        Part { length: Some(body.len() as u64), body: Some(v), ..self }
    }
}

impl Default for Part {
    fn default() -> (r: Part)
        ensures
            empty_part(r),
    {
        Part::new()
    }
}

/// `\r\n`
pub open spec fn crlf() -> Seq<u8> {
    seq![0x0du8, 0x0au8]
}

/// `--`
pub open spec fn dashes() -> Seq<u8> {
    seq![0x2du8, 0x2du8]
}

/// `"`
pub open spec fn quote() -> Seq<u8> {
    seq![0x22u8]
}

/// `Content-Disposition: form-data`
pub open spec fn disposition() -> Seq<u8> {
    ascii_bytes("Content-Disposition: form-data")
}

/// `; name="`
pub open spec fn name_open() -> Seq<u8> {
    ascii_bytes("; name=\"")
}

/// `; filename="`
pub open spec fn file_name_open() -> Seq<u8> {
    ascii_bytes("; filename=\"")
}

/// `Content-Type: `
pub open spec fn type_open() -> Seq<u8> {
    ascii_bytes("Content-Type: ")
}

/// `open`, the text and `close`, when there is a text.
pub open spec fn opt_field(open: Seq<u8>, v: Option<String>, close: Seq<u8>) -> Seq<u8> {
    match v {
        Some(s) => open + text_bytes(s) + close,
        None => Seq::empty(),
    }
}

/// The body of a part; none is empty.
pub open spec fn body_bytes(p: Part) -> Seq<u8> {
    match p.body {
        Some(v) => v@,
        None => Seq::empty(),
    }
}

/// The head of a part: its boundary line and its header lines.
pub open spec fn part_head(p: Part, b: Seq<u8>) -> Seq<u8> {
    dashes() + b + crlf() + disposition() + opt_field(name_open(), p.name, quote())
        + opt_field(file_name_open(), p.file_name, quote()) + crlf()
        + opt_field(type_open(), p.mime, crlf()) + crlf()
}

/// A part as sent: its head, its body and a line end.
pub open spec fn part_bytes(p: Part, b: Seq<u8>) -> Seq<u8> {
    part_head(p, b) + body_bytes(p) + crlf()
}

/// The parts as sent, one after the other.
pub open spec fn parts_bytes(ps: Seq<Part>, b: Seq<u8>) -> Seq<u8>
    decreases ps.len(),
{
    if ps.len() == 0 {
        Seq::empty()
    } else {
        parts_bytes(ps.drop_last(), b) + part_bytes(ps.last(), b)
    }
}

/// The whole message: the parts and the closing boundary line.
pub open spec fn message(ps: Seq<Part>, b: Seq<u8>) -> Seq<u8> {
    parts_bytes(ps, b) + dashes() + b + dashes() + crlf()
}

/// What a part adds to the total besides its declared length.
pub open spec fn opt_size(extra: nat, v: Option<String>) -> nat {
    match v {
        Some(s) => extra + text_bytes(s).len(),
        None => 0,
    }
}

/// The octets of a part besides its body, for a boundary of `blen` octets.
pub open spec fn part_size(p: Part, blen: nat) -> nat {
    (2 + blen + 2) + 30 + opt_size(9, p.name) + opt_size(13, p.file_name) + 2 + opt_size(16, p.mime)
        + 4
}

/// The sum over the parts of their declared lengths and the rest of their
/// octets; nothing when a part declares no length.
pub open spec fn sized_total(ps: Seq<Part>, blen: nat) -> Option<nat>
    decreases ps.len(),
{
    if ps.len() == 0 {
        Some(0)
    } else {
        match (sized_total(ps.drop_last(), blen), ps.last().length) {
            (Some(t), Some(l)) => Some(t + l as nat + part_size(ps.last(), blen)),
            _ => None,
        }
    }
}

/// The same sum, taken up to the first part that declares no length.
pub open spec fn reached(ps: Seq<Part>, blen: nat) -> nat
    decreases ps.len(),
{
    if ps.len() == 0 {
        0
    } else {
        match (sized_total(ps.drop_last(), blen), ps.last().length) {
            (Some(t), Some(l)) => t + l as nat + part_size(ps.last(), blen),
            _ => reached(ps.drop_last(), blen),
        }
    }
}

/// The total size of the message, when every part declares its length.
pub open spec fn total_size(ps: Seq<Part>, blen: nat) -> Option<nat> {
    match sized_total(ps, blen) {
        Some(t) => Some(t + 2 + blen + 4),
        None => None,
    }
}

/// The largest count that the sum reaches while it is taken: up to the
/// first part that declares no length, or to the end of the message.
pub open spec fn counted(ps: Seq<Part>, blen: nat) -> nat {
    match sized_total(ps, blen) {
        Some(t) => t + 2 + blen + 4,
        None => reached(ps, blen),
    }
}

proof fn lemma_reached_sized(ps: Seq<Part>, blen: nat)
    ensures
        sized_total(ps, blen) matches Some(t) ==> reached(ps, blen) == t,
    decreases ps.len(),
{
    if ps.len() > 0 {
        lemma_reached_sized(ps.drop_last(), blen);
    }
}

proof fn lemma_reached_prefix(ps: Seq<Part>, i: int, blen: nat)
    requires
        0 <= i <= ps.len(),
        sized_total(ps.take(i), blen) is Some,
    ensures
        sized_total(ps.take(i), blen).unwrap() <= reached(ps, blen),
    decreases ps.len(),
{
    if i == ps.len() {
        assert(ps.take(i) =~= ps);
        lemma_reached_sized(ps, blen);
    } else {
        assert(ps.drop_last().take(i) =~= ps.take(i));
        lemma_reached_prefix(ps.drop_last(), i, blen);
        lemma_reached_sized(ps.drop_last(), blen);
    }
}

/// Appends `open`, the text and `close`, when there is a text.
fn push_field(out: &mut Vec<u8>, open: &[u8], v: &Option<String>, close: &[u8])
    ensures
        final(out)@ == old(out)@ + opt_field(open@, *v, close@),
{
    match v {
        Some(s) => {
            push_bytes(out, open);
            push_bytes(out, s.as_str().as_bytes());
            push_bytes(out, close);
        },
        None => {},
    }
    assert(out@ =~= old(out)@ + opt_field(open@, *v, close@));
}

/// Returns `\r\n`.
fn crlf_vec() -> (r: Vec<u8>)
    ensures
        r@ == crlf(),
{
    let mut r: Vec<u8> = Vec::new();
    r.push(0x0d);
    r.push(0x0a);
    assert(r@ =~= crlf());
    r
}

/// Returns `Content-Disposition: form-data`.
fn disposition_vec() -> (r: Vec<u8>)
    ensures
        r@ == disposition(),
{
    proof { reveal_strlit("Content-Disposition: form-data"); }
    lit("Content-Disposition: form-data")
}

/// Returns `; name="`.
fn name_open_vec() -> (r: Vec<u8>)
    ensures
        r@ == name_open(),
{
    proof { reveal_strlit("; name=\""); }
    lit("; name=\"")
}

/// Returns `; filename="`.
fn file_name_open_vec() -> (r: Vec<u8>)
    ensures
        r@ == file_name_open(),
{
    proof { reveal_strlit("; filename=\""); }
    lit("; filename=\"")
}

/// Returns `Content-Type: `.
fn type_open_vec() -> (r: Vec<u8>)
    ensures
        r@ == type_open(),
{
    proof { reveal_strlit("Content-Type: "); }
    lit("Content-Type: ")
}

/// Appends the head of a part, for the boundary `b`.
fn push_head(out: &mut Vec<u8>, p: &Part, b: &[u8])
    ensures
        final(out)@ == old(out)@ + part_head(*p, b@),
{
    let mut q: Vec<u8> = Vec::new();
    q.push(0x22);
    assert(q@ =~= quote());
    let line = crlf_vec();
    let mut dd: Vec<u8> = Vec::new();
    dd.push(0x2d);
    dd.push(0x2d);
    assert(dd@ =~= dashes());
    let ghost o = old(out)@;
    push_bytes(out, dd.as_slice());
    push_bytes(out, b);
    push_bytes(out, line.as_slice());
    push_bytes(out, disposition_vec().as_slice());
    assert(out@ == o + dashes() + b@ + crlf() + disposition());
    push_field(out, name_open_vec().as_slice(), &p.name, q.as_slice());
    push_field(out, file_name_open_vec().as_slice(), &p.file_name, q.as_slice());
    push_bytes(out, line.as_slice());
    push_field(out, type_open_vec().as_slice(), &p.mime, line.as_slice());
    push_bytes(out, line.as_slice());
    assert(out@ == o + part_head(*p, b@));
}

/// Appends a part as sent, for the boundary `b`.
fn push_part(out: &mut Vec<u8>, p: &Part, b: &[u8])
    ensures
        final(out)@ == old(out)@ + part_bytes(*p, b@),
{
    push_head(out, p, b);
    match &p.body {
        Some(v) => push_bytes(out, v.as_slice()),
        None => {},
    }
    out.push(0x0d);
    out.push(0x0a);
    assert(out@ =~= old(out)@ + part_bytes(*p, b@));
}

/// The whole message for the parts `ps` and the boundary `b`.
fn build_message(ps: &Vec<Part>, b: &[u8]) -> (r: Vec<u8>)
    ensures
        r@ == message(ps@, b@),
{
    let mut out: Vec<u8> = Vec::new();
    let mut i: usize = 0;
    while i < ps.len()
        invariant
            i <= ps@.len(),
            out@ == parts_bytes(ps@.take(i as int), b@),
        decreases ps@.len() - i,
    {
        push_part(&mut out, &ps[i], b);
        assert(ps@.take(i + 1).drop_last() =~= ps@.take(i as int));
        i = i + 1;
    }
    assert(ps@.take(ps@.len() as int) =~= ps@);
    out.push(0x2d);
    out.push(0x2d);
    push_bytes(&mut out, b);
    out.push(0x2d);
    out.push(0x2d);
    out.push(0x0d);
    out.push(0x0a);
    assert(out@ =~= message(ps@, b@));
    out
}

/// A message being read: its octets and how many were handed out.
struct Reading {
    msg: Vec<u8>,
    pos: usize,
}

impl Reading {
    #[verifier::type_invariant]
    spec fn inv(&self) -> bool {
        self.pos <= self.msg@.len()
    }
}

/// A `multipart/form-data` message under construction or being read.
pub struct MultiPart {
    /// The parts, in order.
    pub parts: Vec<Part>,
    boundary: String,
    status: Option<Reading>,
}

impl MultiPart {
    /// The parts, in order.
    pub closed spec fn part_list(&self) -> Seq<Part> {
        self.parts@
    }

    /// The octets of the boundary.
    pub closed spec fn boundary_text(&self) -> Seq<u8> {
        text_bytes(self.boundary)
    }

    /// Whether reading has begun; the message is then fixed.
    pub closed spec fn started(&self) -> bool {
        self.status is Some
    }

    /// The message that reading gives: the one fixed when reading began,
    /// or else the one of the current parts.
    pub closed spec fn whole(&self) -> Seq<u8> {
        match self.status {
            Some(r) => r.msg@,
            None => message(self.parts@, self.boundary_text()),
        }
    }

    /// The octets of the message not yet read.
    pub closed spec fn pending(&self) -> Seq<u8> {
        match self.status {
            Some(r) => r.msg@.subrange(r.pos as int, r.msg@.len() as int),
            None => message(self.parts@, self.boundary_text()),
        }
    }

    /// Creates a message with no part and a fresh random boundary.
    pub fn new() -> (r: MultiPart)
        ensures
            r.part_list() == Seq::<Part>::empty(),
            !r.started(),
            exists|seed: u64| seed != 0 && r.boundary_text() == #[trigger] boundary_bytes(seed),
    {
        MultiPart { parts: Vec::new(), boundary: gen_boundary(), status: None }
    }

    /// Adds a part at the end.
    pub fn part(self, part: Part) -> (r: MultiPart)
        ensures
            r.part_list() == self.part_list().push(part),
            r.boundary_text() == self.boundary_text(),
            r.started() == self.started(),
            self.started() ==> r.whole() == self.whole() && r.pending() == self.pending(),
    {
        let mut parts = self.parts;
        parts.push(part);
        MultiPart { parts, boundary: self.boundary, status: self.status }
    }

    /// The boundary.
    pub fn boundary(&self) -> (r: &str)
        ensures
            r.spec_bytes() == self.boundary_text(),
    {
        self.boundary.as_str()
    }

    /// The size of the whole message, when every part declares its length:
    /// the declared lengths and the octets of the boundary lines and of the
    /// header lines. Nothing when a part declares no length.
    pub fn total_bytes(&self) -> (r: Option<u64>)
        requires
            counted(self.part_list(), self.boundary_text().len()) <= u64::MAX,
        ensures
            r == (match total_size(self.part_list(), self.boundary_text().len()) {
                Some(t) => Some(t as u64),
                None => None::<u64>,
            }),
    {
        let ghost ps = self.parts@;
        let ghost blen = self.boundary_text().len();
        let b = self.boundary.as_str().as_bytes().len() as u64;
        let mut size: u64 = 0;
        let mut i: usize = 0;
        while i < self.parts.len()
            invariant
                i <= ps.len(),
                ps == self.parts@,
                b == blen,
                blen == self.boundary_text().len(),
                sized_total(ps.take(i as int), blen) == Some(size as nat),
                counted(ps, blen) <= u64::MAX,
            decreases ps.len() - i,
        {
            let part = &self.parts[i];
            let l = match part.length {
                Some(l) => l,
                None => {
                    proof {
                        assert(ps.take(i + 1).drop_last() =~= ps.take(i as int));
                        lemma_sized_none(ps, i as int + 1, blen);
                    }
                    return None;
                },
            };
            proof {
                assert(ps.take(i + 1).drop_last() =~= ps.take(i as int));
                lemma_reached_prefix(ps, i + 1, blen);
            }
            size = size + l;
            size = size + (2 + b + 2);
            size = size + 30;
            match &part.name {
                Some(s) => { size = size + 9 + s.as_str().as_bytes().len() as u64; },
                None => {},
            }
            match &part.file_name {
                Some(s) => { size = size + 13 + s.as_str().as_bytes().len() as u64; },
                None => {},
            }
            size = size + 2;
            match &part.mime {
                Some(s) => { size = size + 16 + s.as_str().as_bytes().len() as u64; },
                None => {},
            }
            size = size + 4;
            i = i + 1;
        }
        proof {
            assert(ps.take(ps.len() as int) =~= ps);
            lemma_reached_sized(ps, blen);
        }
        size = size + 2 + b + 4;
        Some(size)
    }

    /// Copies the next octets of the message into `buf`, as many as fit,
    /// and returns how many. The first call fixes the message from the
    /// parts present then; 0 once it has all been read.
    pub fn read(&mut self, buf: &mut [u8]) -> (n: usize)
        ensures
            ({
                let p = old(self).pending();
                let k: nat = if old(buf)@.len() < p.len() { old(buf)@.len() } else { p.len() };
                &&& n == k
                &&& final(buf)@ == p.subrange(0, k as int) + old(buf)@.subrange(k as int, old(buf)@.len() as int)
                &&& final(self).pending() == p.subrange(k as int, p.len() as int)
            }),
            final(self).started(),
            final(self).whole() == old(self).whole(),
            final(self).part_list() == old(self).part_list(),
            final(self).boundary_text() == old(self).boundary_text(),
    {
        let r = match self.status.take() {
            Some(r) => r,
            None => {
                let msg = build_message(&self.parts, self.boundary.as_str().as_bytes());
                Reading { msg, pos: 0 }
            },
        };
        proof {
            use_type_invariant(&r);
        }
        let ghost p = r.msg@.subrange(r.pos as int, r.msg@.len() as int);
        assert(p == old(self).pending());
        let n = write_piece(r.msg.as_slice(), r.pos, buf, 0);
        assert(buf@ =~= p.subrange(0, n as int) + old(buf)@.subrange(n as int, old(buf)@.len() as int));
        let pos = r.pos + n;
        let msg = r.msg;
        assert(msg@.subrange(pos as int, msg@.len() as int) =~= p.subrange(n as int, p.len() as int));
        self.status = Some(Reading { msg, pos });
        n
    }

    /// Starts the reading over from the beginning of the fixed message;
    /// nothing changes before reading has begun.
    pub fn reuse(&mut self)
        ensures
            final(self).started() == old(self).started(),
            final(self).whole() == old(self).whole(),
            final(self).pending() == old(self).whole(),
            final(self).part_list() == old(self).part_list(),
            final(self).boundary_text() == old(self).boundary_text(),
    {
        match self.status.take() {
            Some(r) => {
                let msg = r.msg;
                assert(msg@.subrange(0, msg@.len() as int) =~= msg@);
                self.status = Some(Reading { msg, pos: 0 });
            },
            None => {},
        }
    }
}

impl Default for MultiPart {
    fn default() -> (r: MultiPart)
        ensures
            r.part_list() == Seq::<Part>::empty(),
            !r.started(),
            exists|seed: u64| seed != 0 && r.boundary_text() == #[trigger] boundary_bytes(seed),
    {
        MultiPart::new()
    }
}

/// A value that holds a `multipart/form-data` message.
pub trait MultiPartBase {
    /// The message.
    fn multipart(&self) -> &MultiPart;
}

impl MultiPartBase for MultiPart {
    fn multipart(&self) -> (r: &MultiPart)
        ensures
            r == self,
    {
        self
    }
}

proof fn lemma_sized_none(ps: Seq<Part>, i: int, blen: nat)
    requires
        0 < i <= ps.len(),
        ps[i - 1].length is None,
    ensures
        sized_total(ps, blen) is None,
    decreases ps.len(),
{
    if i < ps.len() {
        assert(ps.drop_last()[i - 1] == ps[i - 1]);
        lemma_sized_none(ps.drop_last(), i, blen);
    }
}

/// Every part declares the length of its body.
pub open spec fn lengths_declared(ps: Seq<Part>) -> bool {
    forall|i: int| 0 <= i < ps.len() ==> (#[trigger] ps[i].length matches Some(l) && l == body_bytes(ps[i]).len())
}

proof fn lemma_literal_lengths()
    ensures
        disposition().len() == 30,
        name_open().len() == 8,
        file_name_open().len() == 12,
        type_open().len() == 14,
{
    reveal_strlit("Content-Disposition: form-data");
    reveal_strlit("; name=\"");
    reveal_strlit("; filename=\"");
    reveal_strlit("Content-Type: ");
}

proof fn lemma_sized_parts(ps: Seq<Part>, b: Seq<u8>)
    requires
        lengths_declared(ps),
    ensures
        sized_total(ps, b.len()) == Some(parts_bytes(ps, b).len()),
    decreases ps.len(),
{
    if ps.len() > 0 {
        let q = ps.drop_last();
        assert forall|i: int| 0 <= i < q.len() implies (#[trigger] q[i].length matches Some(l) && l
            == body_bytes(q[i]).len()) by {
            assert(q[i] == ps[i]);
        }
        lemma_sized_parts(q, b);
        lemma_literal_lengths();
        assert(ps[ps.len() - 1] == ps.last());
    }
}

/// When every part declares the length of its body and reading has not
/// begun, the size that `total_bytes` reports is the length of the message
/// that reading gives.
pub proof fn lemma_total_bytes_is_message_len(mp: &MultiPart)
    requires
        !mp.started(),
        lengths_declared(mp.part_list()),
    ensures
        total_size(mp.part_list(), mp.boundary_text().len()) == Some(mp.pending().len()),
{
    lemma_sized_parts(mp.part_list(), mp.boundary_text());
}

} // verus!
