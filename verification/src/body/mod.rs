//! Message bodies: plain, empty and chunked.

pub mod chunk;
pub mod chunk_body;
pub mod chunk_readback;
pub mod empty;
pub mod mime;
pub mod sync_impl;
pub mod text;
pub mod trailer;

pub use chunk::{Chunk, ChunkBodyDecoder, ChunkExt, ChunkState, Chunks};
pub use chunk_body::ChunkBody;
pub use empty::EmptyBody;
pub use mime::{MimeType, MimeTypeTag, MultiPart, MultiPartBase, Part};
pub use text::{Text, TextBody, TextBodyDecoder};
