//! A codec for PNG-style chunks: a four-letter type tag, a payload, and a
//! CRC-32 over both, laid out on the wire as length, tag, payload, checksum.
pub mod chunk;
pub mod chunk_type;
pub mod error;
mod text;

pub use chunk::{check_frame, Chunk};
pub use chunk_type::ChunkType;
pub use error::ChunkError;
