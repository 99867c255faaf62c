//! A library for reading and editing PNG files at the chunk level.
//!
//! A PNG file is a fixed eight-byte signature followed by a sequence of
//! chunks; each chunk carries a four-byte type tag, a payload, and a
//! CRC-32 checksum over tag and payload. The library parses such byte
//! streams into validated values, lets a caller append, look up and
//! remove chunks, and serializes the result back to bytes.


pub mod args;
pub mod checksum;
pub mod chunk;
pub mod chunk_type;
pub mod error;
pub mod png;
pub mod text;

pub use chunk::Chunk;
pub use chunk_type::ChunkType;
pub use error::PngError;
pub use png::Png;
