//! HTTP/1.1 request heads (RFC 9112, section 3): the request line and the
//! field lines, written into buffers of any size.
use vstd::prelude::*;
use crate::bytes::{copy_bytes, write_piece};
use crate::error::{ErrorKind, HttpError};
use crate::headers::lines_text;
use crate::request::{origin_form, RequestPart};

verus! {

/// The part of the request head being written.
#[derive(Debug, PartialEq, Eq, Structural, Clone, Copy)]
pub enum EncodeState {
    /// The method.
    Method,
    /// The space after the method.
    MethodSp,
    /// The request target.
    Uri,
    /// The space after the target.
    UriSp,
    /// The version.
    Version,
    /// The line end after the version.
    VersionCrlf,
    /// The field lines.
    Header,
    /// The empty line that ends the head.
    HeaderCrlf,
    /// Everything was written.
    EncodeFinished,
}

/// The position of a part in the head.
pub open spec fn state_index(s: EncodeState) -> int {
    match s {
        EncodeState::Method => 0,
        EncodeState::MethodSp => 1,
        EncodeState::Uri => 2,
        EncodeState::UriSp => 3,
        EncodeState::Version => 4,
        EncodeState::VersionCrlf => 5,
        EncodeState::Header => 6,
        EncodeState::HeaderCrlf => 7,
        EncodeState::EncodeFinished => 8,
    }
}

/// The part after `s`.
pub open spec fn next_state(s: EncodeState) -> EncodeState {
    match s {
        EncodeState::Method => EncodeState::MethodSp,
        EncodeState::MethodSp => EncodeState::Uri,
        EncodeState::Uri => EncodeState::UriSp,
        EncodeState::UriSp => EncodeState::Version,
        EncodeState::Version => EncodeState::VersionCrlf,
        EncodeState::VersionCrlf => EncodeState::Header,
        EncodeState::Header => EncodeState::HeaderCrlf,
        _ => EncodeState::EncodeFinished,
    }
}

/// The octets of the parts of a request head.
pub struct HeadParts {
    /// The method.
    pub method: Seq<u8>,
    /// The target in absolute form.
    pub absolute: Seq<u8>,
    /// The target in origin form.
    pub origin: Seq<u8>,
    /// The version.
    pub version: Seq<u8>,
    /// The field lines, written.
    pub lines: Seq<u8>,
}

/// The octets of part `s`; the target in absolute form if `abs`.
pub open spec fn piece(p: HeadParts, s: EncodeState, abs: bool) -> Seq<u8> {
    match s {
        EncodeState::Method => p.method,
        EncodeState::MethodSp => seq![0x20u8],
        EncodeState::Uri => if abs { p.absolute } else { p.origin },
        EncodeState::UriSp => seq![0x20u8],
        EncodeState::Version => p.version,
        EncodeState::VersionCrlf => seq![0x0du8, 0x0au8],
        EncodeState::Header => p.lines,
        EncodeState::HeaderCrlf => seq![0x0du8, 0x0au8],
        EncodeState::EncodeFinished => Seq::empty(),
    }
}

/// The octets of the parts after `s`.
pub open spec fn after(p: HeadParts, s: EncodeState, abs: bool) -> Seq<u8>
    decreases 8 - state_index(s),
{
    if state_index(s) >= 8 {
        Seq::empty()
    } else {
        piece(p, next_state(s), abs) + after(p, next_state(s), abs)
    }
}

/// The parts of the head of `part`.
pub open spec fn head_parts(part: RequestPart) -> HeadParts {
    HeadParts {
        method: part.method@,
        absolute: part.uri.absolute@,
        origin: origin_form(part.uri),
        version: part.version@,
        lines: lines_text(part.headers.lines()),
    }
}

/// The head of a request: the request line, with the target in absolute
/// form if `abs` and in origin form otherwise, the field lines and an
/// empty line.
pub open spec fn request_head(part: RequestPart, abs: bool) -> Seq<u8> {
    let p = head_parts(part);
    p.method + seq![0x20u8] + (if abs { p.absolute } else { p.origin }) + seq![0x20u8] + p.version
        + seq![0x0du8, 0x0au8] + p.lines + seq![0x0du8, 0x0au8]
}

/// From its start, the head is its parts in order.
proof fn lemma_head_whole(p: HeadParts, abs: bool)
    ensures
        piece(p, EncodeState::Method, abs).skip(0) + after(p, EncodeState::Method, abs)
            == p.method + seq![0x20u8] + (if abs { p.absolute } else { p.origin }) + seq![0x20u8] + p.version
            + seq![0x0du8, 0x0au8] + p.lines + seq![0x0du8, 0x0au8],
{
    let e = Seq::<u8>::empty();
    assert(after(p, EncodeState::EncodeFinished, abs) == e);
    assert(after(p, EncodeState::HeaderCrlf, abs) =~= e);
    assert(after(p, EncodeState::Header, abs) == seq![0x0du8, 0x0au8] + e);
    assert(after(p, EncodeState::VersionCrlf, abs) == p.lines + after(p, EncodeState::Header, abs));
    assert(after(p, EncodeState::Version, abs) == seq![0x0du8, 0x0au8] + after(p, EncodeState::VersionCrlf, abs));
    assert(after(p, EncodeState::UriSp, abs) == p.version + after(p, EncodeState::Version, abs));
    assert(after(p, EncodeState::Uri, abs) == seq![0x20u8] + after(p, EncodeState::UriSp, abs));
    assert(after(p, EncodeState::MethodSp, abs) == (if abs { p.absolute } else { p.origin }) + after(p, EncodeState::Uri, abs));
    assert(after(p, EncodeState::Method, abs) == seq![0x20u8] + after(p, EncodeState::MethodSp, abs));
    assert(p.method.skip(0) =~= p.method);
    assert(piece(p, EncodeState::Method, abs).skip(0) + after(p, EncodeState::Method, abs)
        =~= p.method + seq![0x20u8] + (if abs { p.absolute } else { p.origin }) + seq![0x20u8] + p.version
            + seq![0x0du8, 0x0au8] + p.lines + seq![0x0du8, 0x0au8]);
}

/// Writer of the head of a request.
pub struct RequestEncoder {
    encode_status: EncodeState,
    idx: usize,
    method: Vec<u8>,
    absolute: Vec<u8>,
    origin: Vec<u8>,
    version: Vec<u8>,
    lines: Vec<u8>,
    uri_absolute: bool,
    is_absolute_uri: bool,
}

impl RequestEncoder {
    #[verifier::type_invariant]
    spec fn wf(&self) -> bool {
        self.idx <= piece(self.parts(), self.encode_status, self.target_form(self.is_absolute_uri)).len()
    }

    /// The parts written.
    closed spec fn parts(&self) -> HeadParts {
        HeadParts {
            method: self.method@,
            absolute: self.absolute@,
            origin: self.origin@,
            version: self.version@,
            lines: self.lines@,
        }
    }

    /// The form of the target: fixed once the target is reached, else the
    /// one `abs` asks for.
    closed spec fn target_form(&self, abs: bool) -> bool {
        if state_index(self.encode_status) < 2 { abs } else { self.uri_absolute }
    }

    /// Whether the target is to be written in absolute form.
    pub closed spec fn absolute_flag(&self) -> bool {
        self.is_absolute_uri
    }

    /// The octets still to write had the absolute-form flag been `abs`.
    pub closed spec fn rest_with(&self, abs: bool) -> Seq<u8> {
        let p = self.parts();
        let a = self.target_form(abs);
        piece(p, self.encode_status, a).skip(self.idx as int) + after(p, self.encode_status, a)
    }

    /// The octets still to write.
    pub open spec fn rest(&self) -> Seq<u8> {
        self.rest_with(self.absolute_flag())
    }

    /// A measure that falls with each part written.
    spec fn measure(&self) -> int {
        16 * self.rest().len() + 8 - state_index(self.encode_status)
    }

    /// Creates a writer of the head of `part`; the target goes in origin
    /// form unless `absolute_uri` asks otherwise.
    pub fn new(part: RequestPart) -> (r: RequestEncoder)
        ensures
            !r.absolute_flag(),
            forall|abs: bool| #[trigger] r.rest_with(abs) == request_head(part, abs),
    {
        let lines = part.headers.to_lines();
        let origin = match part.uri.path_and_query {
            Some(p) => p,
            None => {
                let mut v: Vec<u8> = Vec::new();
                v.push(0x2f);
                assert(v@ =~= seq![0x2fu8]);
                v
            },
        };
        let r = RequestEncoder {
            encode_status: EncodeState::Method,
            idx: 0,
            method: part.method,
            absolute: part.uri.absolute,
            origin,
            version: part.version,
            lines,
            uri_absolute: false,
            is_absolute_uri: false,
        };
        assert(r.parts() == head_parts(part));
        assert forall|abs: bool| #[trigger] r.rest_with(abs) == request_head(part, abs) by {
            lemma_head_whole(r.parts(), abs);
        }
        r
    }

    /// Whether the target is to be written in absolute form.
    pub fn is_absolute_uri(&self) -> (r: bool)
        ensures
            r == self.absolute_flag(),
    {
        self.is_absolute_uri
    }

    /// Asks for the target in absolute form (as through a proxy) or in
    /// origin form; once writing has reached the target, its form stays.
    pub fn absolute_uri(&mut self, is_absolute: bool)
        ensures
            final(self).absolute_flag() == is_absolute,
            forall|abs: bool| #[trigger] final(self).rest_with(abs) == old(self).rest_with(abs),
    {
        proof {
            use_type_invariant(&*self);
        }
        self.is_absolute_uri = is_absolute;
    }

    /// The octets of the current part.
    fn token(&self) -> (r: Vec<u8>)
        ensures
            r@ == piece(self.parts(), self.encode_status, self.target_form(self.is_absolute_uri)),
    {
        match self.encode_status {
            EncodeState::Method => copy_bytes(self.method.as_slice()),
            EncodeState::Uri => if self.uri_absolute {
                copy_bytes(self.absolute.as_slice())
            } else {
                copy_bytes(self.origin.as_slice())
            },
            EncodeState::Version => copy_bytes(self.version.as_slice()),
            EncodeState::Header => copy_bytes(self.lines.as_slice()),
            EncodeState::MethodSp | EncodeState::UriSp => {
                let mut v: Vec<u8> = Vec::new();
                v.push(0x20);
                assert(v@ =~= seq![0x20u8]);
                v
            },
            EncodeState::EncodeFinished => {
                let v: Vec<u8> = Vec::new();
                assert(v@ =~= Seq::<u8>::empty());
                v
            },
            _ => {
                let mut v: Vec<u8> = Vec::new();
                v.push(0x0d);
                v.push(0x0a);
                assert(v@ =~= seq![0x0du8, 0x0au8]);
                v
            },
        }
    }

    /// Moves to the next part; the form of the target is fixed when the
    /// space before it is written.
    fn advance(&mut self)
        requires
            old(self).encode_status != EncodeState::EncodeFinished,
        ensures
            final(self).encode_status == next_state(old(self).encode_status),
            final(self).idx == 0,
            final(self).parts() == old(self).parts(),
            final(self).is_absolute_uri == old(self).is_absolute_uri,
            final(self).target_form(final(self).is_absolute_uri) == old(self).target_form(old(self).is_absolute_uri),
    {
        self.idx = 0;
        if self.encode_status == EncodeState::MethodSp {
            self.uri_absolute = self.is_absolute_uri;
        }
        self.encode_status = match self.encode_status {
            EncodeState::Method => EncodeState::MethodSp,
            EncodeState::MethodSp => EncodeState::Uri,
            EncodeState::Uri => EncodeState::UriSp,
            EncodeState::UriSp => EncodeState::Version,
            EncodeState::Version => EncodeState::VersionCrlf,
            EncodeState::VersionCrlf => EncodeState::Header,
            EncodeState::Header => EncodeState::HeaderCrlf,
            _ => EncodeState::EncodeFinished,
        };
    }

    /// Writes the octets of the current part, from `at` in `dst`.
    fn part_encode(&mut self, dst: &mut [u8], at: usize) -> (n: usize)
        requires
            at < old(dst)@.len(),
            old(self).encode_status != EncodeState::EncodeFinished,
        ensures
            at + n <= old(dst)@.len(),
            final(dst)@.len() == old(dst)@.len(),
            final(dst)@.subrange(0, at as int) == old(dst)@.subrange(0, at as int),
            final(dst)@.subrange(at + n, old(dst)@.len() as int) == old(dst)@.subrange(at + n, old(dst)@.len() as int),
            old(self).rest() == final(dst)@.subrange(at as int, at + n) + final(self).rest(),
            final(self).absolute_flag() == old(self).absolute_flag(),
            final(self).measure() < old(self).measure(),
    {
        proof {
            use_type_invariant(&*self);
        }
        let ghost p = self.parts();
        let ghost a = self.target_form(self.is_absolute_uri);
        let ghost old_rest = self.rest();
        let ghost i0 = self.idx as int;
        let ghost s0 = self.encode_status;
        let tok = self.token();
        let n = write_piece(tok.as_slice(), self.idx, dst, at);
        assert(tok@.skip(i0) =~= tok@.subrange(i0, i0 + n) + tok@.skip(i0 + n));
        if self.idx + n == tok.len() {
            self.advance();
            assert(piece(p, next_state(s0), a).skip(0) =~= piece(p, next_state(s0), a));
            assert(tok@.skip(i0 + n) =~= Seq::<u8>::empty());
        } else {
            self.idx = self.idx + n;
        }
        proof {
            assert(dst@.subrange(0, at as int) =~= old(dst)@.subrange(0, at as int));
            assert(dst@.subrange(at + n, dst@.len() as int) =~= old(dst)@.subrange(at + n, dst@.len() as int));
            assert(dst@.subrange(at as int, at + n) =~= tok@.subrange(i0, i0 + n));
            assert(old_rest =~= dst@.subrange(at as int, at + n) + self.rest());
        }
        n
    }

    /// Writes the next octets of the head into `dst`, as many as fit, and
    /// returns how many; fewer than `dst` holds means the head is complete.
    /// An empty `dst` is refused.
    pub fn encode(&mut self, dst: &mut [u8]) -> (r: Result<usize, HttpError>)
        ensures
            old(dst)@.len() == 0 ==> (r matches Err(e) && e.kind == ErrorKind::InvalidInput
                && final(dst)@ == old(dst)@ && final(self).rest() == old(self).rest()),
            old(dst)@.len() > 0 ==> ({
                let rest = old(self).rest();
                let n: nat = if old(dst)@.len() < rest.len() { old(dst)@.len() } else { rest.len() };
                &&& r == Ok::<usize, HttpError>(n as usize)
                &&& final(dst)@ == rest.subrange(0, n as int) + old(dst)@.subrange(n as int, old(dst)@.len() as int)
                &&& final(self).rest() == rest.subrange(n as int, rest.len() as int)
            }),
            final(self).absolute_flag() == old(self).absolute_flag(),
    {
        if dst.len() == 0 {
            return Err(HttpError::from_kind(ErrorKind::InvalidInput));
        }
        let ghost rest0 = self.rest();
        let mut count: usize = 0;
        while count < dst.len() && self.encode_status != EncodeState::EncodeFinished
            invariant
                count <= dst@.len(),
                dst@.len() == old(dst)@.len(),
                rest0 == old(self).rest(),
                rest0 == dst@.subrange(0, count as int) + self.rest(),
                dst@.subrange(count as int, dst@.len() as int) == old(dst)@.subrange(count as int, dst@.len() as int),
                self.absolute_flag() == old(self).absolute_flag(),
            decreases self.measure(),
        {
            let ghost before = dst@;
            let n = self.part_encode(dst, count);
            proof {
                assert forall|j: int| count + n <= j < dst@.len() implies dst@[j] == old(dst)@[j] by {
                    assert(dst@[j] == dst@.subrange(count + n, dst@.len() as int)[j - count - n]);
                    assert(before[j] == before.subrange(count + n, dst@.len() as int)[j - count - n]);
                    assert(before[j] == before.subrange(count as int, dst@.len() as int)[j - count]);
                    assert(old(dst)@[j] == old(dst)@.subrange(count as int, dst@.len() as int)[j - count]);
                }
                assert(dst@.subrange(0, count as int) =~= before.subrange(0, count as int));
                assert(dst@.subrange(0, count + n) =~= dst@.subrange(0, count as int) + dst@.subrange(count as int, count + n));
                assert(dst@.subrange(count + n, dst@.len() as int) =~= old(dst)@.subrange(count + n, dst@.len() as int));
            }
            count = count + n;
        }
        proof {
            if count < dst@.len() {
                use_type_invariant(&*self);
                assert(self.rest() =~= Seq::<u8>::empty());
            }
            assert(rest0.subrange(0, count as int) =~= dst@.subrange(0, count as int));
            assert(self.rest() =~= rest0.subrange(count as int, rest0.len() as int));
            assert(dst@ =~= rest0.subrange(0, count as int) + old(dst)@.subrange(count as int, old(dst)@.len() as int));
        }
        Ok(count)
    }
}

} // verus!
