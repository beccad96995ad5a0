//! The head of an HTTP response: version, status code and field lines.
use vstd::prelude::*;
use crate::error::{ErrorKind, HttpError};
use crate::headers::Headers;

verus! {

/// An HTTP version carried by an HTTP/1.x status line.
#[allow(non_camel_case_types)]
#[derive(Debug, Clone, Copy, PartialEq, Eq, Structural)]
pub enum Version {
    /// HTTP/1.0
    HTTP1_0,
    /// HTTP/1.1
    HTTP1_1,
}

/// The text of a version.
pub open spec fn version_text(v: Version) -> Seq<char> {
    match v {
        Version::HTTP1_0 => "HTTP/1.0"@,
        Version::HTTP1_1 => "HTTP/1.1"@,
    }
}

impl Version {
    /// The text of the version, such as `HTTP/1.1`.
    pub fn as_str(&self) -> (r: &'static str)
        ensures
            r@ == version_text(*self),
    {
        match self {
            Version::HTTP1_0 => "HTTP/1.0",
            Version::HTTP1_1 => "HTTP/1.1",
        }
    }
}

/// A status code: three digits, the first not zero.
#[derive(Debug, Clone, Copy, PartialEq, Eq, Structural)]
pub struct StatusCode(u16);

/// An ASCII digit.
pub open spec fn is_digit(b: u8) -> bool {
    0x30 <= b <= 0x39
}

/// The status code written as `b`, if `b` is three digits, the first not
/// zero.
pub open spec fn status_of(b: Seq<u8>) -> Option<u16> {
    if b.len() == 3 && 0x31 <= b[0] <= 0x39 && is_digit(b[1]) && is_digit(b[2]) {
        Some(((b[0] - 0x30) * 100 + (b[1] - 0x30) * 10 + (b[2] - 0x30)) as u16)
    } else {
        None
    }
}

/// The three ASCII digits that write `c` in decimal.
pub open spec fn decimal_digits(c: int) -> Seq<u8> {
    seq![(0x30 + c / 100) as u8, (0x30 + (c / 10) % 10) as u8, (0x30 + c % 10) as u8]
}

/// A status code read from the wire is the number its digits write: the
/// three digits of the code, in decimal, are the bytes that were read, and
/// every three digits whose first is not zero are read as a code.
pub proof fn lemma_status_digits(b: Seq<u8>)
    ensures
        status_of(b) matches Some(c) ==> (100 <= c <= 999 && decimal_digits(c as int) == b),
        (b.len() == 3 && 0x31 <= b[0] <= 0x39 && is_digit(b[1]) && is_digit(b[2])) ==> status_of(b) is Some,
{
    if b.len() == 3 && 0x31 <= b[0] <= 0x39 && is_digit(b[1]) && is_digit(b[2]) {
        let d0: int = b[0] - 0x30;
        let d1: int = b[1] - 0x30;
        let d2: int = b[2] - 0x30;
        let c: int = d0 * 100 + d1 * 10 + d2;
        assert(status_of(b) == Some(c as u16));
        assert(c / 100 == d0 && (c / 10) % 10 == d1 && c % 10 == d2 && 100 <= c <= 999) by (nonlinear_arith)
            requires
                1 <= d0 <= 9,
                0 <= d1 <= 9,
                0 <= d2 <= 9,
                c == d0 * 100 + d1 * 10 + d2,
        ;
        assert(decimal_digits(c) =~= b);
    }
}

impl StatusCode {
    /// The number of the code.
    pub closed spec fn code(&self) -> u16 {
        self.0
    }

    /// Reads a status code from its three digits; anything else is refused.
    pub fn from_bytes(b: &[u8]) -> (r: Result<StatusCode, HttpError>)
        ensures
            match status_of(b@) {
                Some(c) => r matches Ok(s) && s.code() == c,
                None => r matches Err(e) && e.kind == ErrorKind::InvalidInput,
            },
    {
        if b.len() == 3 && 0x31 <= b[0] && b[0] <= 0x39 && 0x30 <= b[1] && b[1] <= 0x39 && 0x30 <= b[2] && b[2] <= 0x39 {
            let c: u16 = (b[0] - 0x30) as u16 * 100 + (b[1] - 0x30) as u16 * 10 + (b[2] - 0x30) as u16;
            Ok(StatusCode(c))
        } else {
            Err(HttpError::from_kind(ErrorKind::InvalidInput))
        }
    }

    /// The number of the code.
    pub fn as_u16(&self) -> (r: u16)
        ensures
            r == self.code(),
    {
        self.0
    }
}

/// The head of a response.
pub struct ResponsePart {
    /// The version.
    pub version: Version,
    /// The status code.
    pub status: StatusCode,
    /// The field lines.
    pub headers: Headers,
}

} // verus!
