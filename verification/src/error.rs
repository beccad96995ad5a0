//! The error type of the HTTP components.
use vstd::prelude::*;
use crate::h2::error::H2Error;

verus! {

/// The kinds of error.
#[derive(Debug, Clone, Copy, PartialEq, Eq)]
pub enum ErrorKind {
    /// Input that does not follow the protocol.
    InvalidInput,
    /// An HTTP/1.1 error.
    H1(H1Error),
    /// An HTTP/2 error.
    H2(H2Error),
}

/// Errors of HTTP/1.1 message coding.
#[derive(Debug, Clone, Copy, PartialEq, Eq)]
pub enum H1Error {
    /// A response head that does not follow the syntax.
    InvalidResponse,
}

/// An error of the HTTP components.
#[derive(Debug, Clone, Copy, PartialEq, Eq)]
pub struct HttpError {
    /// The kind of error.
    pub kind: ErrorKind,
}

impl HttpError {
    /// An error of the given kind.
    pub fn from_kind(kind: ErrorKind) -> (r: HttpError)
        ensures
            r.kind == kind,
    {
        HttpError { kind }
    }
}

impl From<ErrorKind> for HttpError {
    fn from(kind: ErrorKind) -> (r: HttpError) {
        HttpError { kind }
    }
}

impl vstd::std_specs::convert::FromSpecImpl<ErrorKind> for HttpError {
    open spec fn obeys_from_spec() -> bool {
        true
    }

    open spec fn from_spec(kind: ErrorKind) -> HttpError {
        HttpError { kind }
    }
}

impl From<H2Error> for HttpError {
    fn from(err: H2Error) -> (r: HttpError) {
        HttpError { kind: ErrorKind::H2(err) }
    }
}

impl vstd::std_specs::convert::FromSpecImpl<H2Error> for HttpError {
    open spec fn obeys_from_spec() -> bool {
        true
    }

    open spec fn from_spec(err: H2Error) -> HttpError {
        HttpError { kind: ErrorKind::H2(err) }
    }
}

} // verus!
