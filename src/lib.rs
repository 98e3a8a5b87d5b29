//! Encoding, decoding and validation of length-prefixed, type-tagged,
//! CRC-protected chunks, the record shape of PNG-style containers.
pub mod chunk;
pub mod chunk_type;
pub mod error;
pub mod text;
pub mod wire;

pub use chunk::Chunk;
pub use chunk_type::ChunkType;
pub use error::FormatError;
