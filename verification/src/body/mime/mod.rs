//! Media types and `multipart/form-data` messages.

pub mod extensions;
pub mod mimetype;
pub mod simple;

pub use mimetype::{MimeType, MimeTypeTag};
pub use simple::{MultiPart, MultiPartBase, Part};
