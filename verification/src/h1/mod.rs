//! HTTP/1.1 message heads: writing request heads and reading response
//! heads.

pub mod request;
pub mod response;

pub use request::RequestEncoder;
pub use response::ResponseDecoder;
