//! HTTP/2 protocol implementation: error codes, frames, frame coding and
//! HPACK header compression.

pub mod error;
pub mod frame;
pub mod decoder;
pub mod encoder;
pub mod hpack;
pub mod parts;
pub mod readback;

pub use decoder::{FrameDecoder, FrameKind, Frames, FramesIntoIter};
pub use encoder::FrameEncoder;
pub use error::{ErrorCode, H2Error, StreamId};
pub use frame::{
    Data, Frame, FrameFlags, FrameType, Goaway, Headers, Payload, Ping, Priority, PushPromise, RstStream, Setting,
    Settings, SettingsBuilder, WindowUpdate,
};
pub use parts::Parts;
pub use crate::pseudo::PseudoHeaders;
