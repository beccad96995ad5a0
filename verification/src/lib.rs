//! HTTP protocol components: HTTP/2 framing and HPACK, HTTP/1.1 message
//! coding and body types.
#![allow(unused_imports)]

pub mod body;
pub mod error;
pub mod h1;
pub mod h2;
pub mod bytes;
pub mod headers;
pub mod pseudo;
pub mod request;
pub mod response;
pub mod huffman;
pub mod huffman_readback;
