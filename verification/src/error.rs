//! The error kinds that the fallible operations of the library return.

use vstd::prelude::*;

verus! {

/// Why a parse, a chunk-type conversion, or a removal failed.
#[derive(Debug, Clone, Copy, PartialEq, Eq, Structural)]
pub enum PngError {
    /// A chunk-type string was not exactly four bytes of ASCII letters.
    InvalidFormat,
    /// The trailing CRC of a chunk disagreed with the one recomputed
    /// over its type and payload.
    ChecksumMismatch,
    /// The buffer ended before a chunk's declared length was reached.
    Truncated,
    /// The first eight bytes of a file buffer were not the PNG signature.
    InvalidSignature,
    /// No chunk of the requested type was present.
    ChunkNotFound,
}

} // verus!
