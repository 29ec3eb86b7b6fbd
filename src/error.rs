use vstd::prelude::*;

verus! {

/// Why a tag, a chunk or a text view could not be produced.
#[derive(PartialEq, Eq, Structural, Debug, Clone, Copy)]
pub enum ChunkError {
    /// A tag byte is not an ASCII letter.
    InvalidTag,
    /// A buffer is shorter than the twelve bytes of a chunk's fixed fields.
    TruncatedInput,
    /// The declared length differs from the number of payload bytes present.
    LengthMismatch,
    /// The trailing checksum differs from the CRC-32 of tag and payload.
    ChecksumMismatch,
    /// The payload is not valid UTF-8.
    NotUtf8Text,
}

} // verus!
