//! Error codes of HTTP/2, carried by `RST_STREAM` and `GOAWAY` frames.
use vstd::prelude::*;

verus! {

/// Identifier of an HTTP/2 stream: an unsigned 31-bit integer.
pub type StreamId = u32;

/// An HTTP/2 error, either scoped to one stream or to the whole connection.
#[derive(Debug, Clone, Copy, PartialEq, Eq)]
pub enum H2Error {
    /// A stream error on the given stream.
    StreamError(StreamId, ErrorCode),
    /// A connection error.
    ConnectionError(ErrorCode),
}

/// The error codes of HTTP/2.
#[derive(Debug, Clone, Copy, PartialEq, Eq)]
pub enum ErrorCode {
    /// Graceful shutdown, no error.
    NoError,
    /// Unspecific protocol error.
    ProtocolError,
    /// Unexpected internal error.
    IntervalError,
    /// Flow-control protocol violated.
    FlowControlError,
    /// SETTINGS not acknowledged in time.
    SettingsTimeout,
    /// Frame received after the stream was half-closed.
    StreamClosed,
    /// Frame with an invalid size.
    FrameSizeError,
    /// Stream refused before processing.
    RefusedStream,
    /// Stream no longer needed.
    Cancel,
    /// Header compression context lost.
    CompressionError,
    /// Connection of a CONNECT request reset.
    ConnectError,
    /// Peer generates excessive load.
    EnhanceYourCalm,
    /// Transport security inadequate.
    InadequateSecurity,
    /// HTTP/1.1 required instead of HTTP/2.
    Http1_1Required,
}

/// The numeric value of an error code on the wire.
pub open spec fn code_of(e: ErrorCode) -> u32 {
    match e {
        ErrorCode::NoError => 0x00,
        ErrorCode::ProtocolError => 0x01,
        ErrorCode::IntervalError => 0x02,
        ErrorCode::FlowControlError => 0x03,
        ErrorCode::SettingsTimeout => 0x04,
        ErrorCode::StreamClosed => 0x05,
        ErrorCode::FrameSizeError => 0x06,
        ErrorCode::RefusedStream => 0x07,
        ErrorCode::Cancel => 0x08,
        ErrorCode::CompressionError => 0x09,
        ErrorCode::ConnectError => 0x0a,
        ErrorCode::EnhanceYourCalm => 0x0b,
        ErrorCode::InadequateSecurity => 0x0c,
        ErrorCode::Http1_1Required => 0x0d,
    }
}

impl ErrorCode {
    /// Gets the numeric code of this error.
    pub fn into_code(self) -> (c: u32)
        ensures
            c == code_of(self),
    {
        match self {
            ErrorCode::NoError => 0x00,
            ErrorCode::ProtocolError => 0x01,
            ErrorCode::IntervalError => 0x02,
            ErrorCode::FlowControlError => 0x03,
            ErrorCode::SettingsTimeout => 0x04,
            ErrorCode::StreamClosed => 0x05,
            ErrorCode::FrameSizeError => 0x06,
            ErrorCode::RefusedStream => 0x07,
            ErrorCode::Cancel => 0x08,
            ErrorCode::CompressionError => 0x09,
            ErrorCode::ConnectError => 0x0a,
            ErrorCode::EnhanceYourCalm => 0x0b,
            ErrorCode::InadequateSecurity => 0x0c,
            ErrorCode::Http1_1Required => 0x0d,
        }
    }

    /// Converts a numeric code into an `ErrorCode`; codes above `0x0d` are a
    /// connection-level protocol error.
    pub fn try_from(value: u32) -> (r: Result<ErrorCode, H2Error>)
        ensures
            value <= 0x0d <==> r is Ok,
            r matches Ok(e) ==> code_of(e) == value,
            r matches Err(e) ==> e == H2Error::ConnectionError(ErrorCode::ProtocolError),
    {
        match value {
            0x00 => Ok(ErrorCode::NoError),
            0x01 => Ok(ErrorCode::ProtocolError),
            0x02 => Ok(ErrorCode::IntervalError),
            0x03 => Ok(ErrorCode::FlowControlError),
            0x04 => Ok(ErrorCode::SettingsTimeout),
            0x05 => Ok(ErrorCode::StreamClosed),
            0x06 => Ok(ErrorCode::FrameSizeError),
            0x07 => Ok(ErrorCode::RefusedStream),
            0x08 => Ok(ErrorCode::Cancel),
            0x09 => Ok(ErrorCode::CompressionError),
            0x0a => Ok(ErrorCode::ConnectError),
            0x0b => Ok(ErrorCode::EnhanceYourCalm),
            0x0c => Ok(ErrorCode::InadequateSecurity),
            0x0d => Ok(ErrorCode::Http1_1Required),
            _ => Err(H2Error::ConnectionError(ErrorCode::ProtocolError)),
        }
    }
}

/// Converting an error code to its number and back gives the same code.
pub proof fn lemma_error_code_roundtrip(e: ErrorCode)
    ensures
        code_of(e) <= 0x0d,
        forall|f: ErrorCode| code_of(f) == code_of(e) ==> f == e,
{
}

} // verus!
