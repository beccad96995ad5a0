//! HPACK header compression (RFC 7541).

pub mod decoder;
pub mod encoder;
pub mod integer;
pub mod fragments;
pub mod readback;
pub mod representation;
pub mod table;

pub use decoder::HpackDecoder;
pub use encoder::HpackEncoder;
