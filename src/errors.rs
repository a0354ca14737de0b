use vstd::prelude::*;

verus! {

/// The checksum carried by a record next to the one recomputed from its
/// contents.
#[derive(Debug, Clone, Copy, PartialEq, Eq, Structural)]
pub struct Expectations {
    /// The checksum found in the input.
    pub got: u32,
    /// The checksum computed over the record's type code and data.
    pub expected: u32,
}

/// Everything that can go wrong while building, decoding or editing chunks.
#[derive(Debug, Clone, Copy, PartialEq, Eq, Structural)]
pub enum PngError {
    /// A type code holds a byte (or character) that is not an ASCII letter.
    InvalidByte,
    /// A type code given as text does not have exactly four characters.
    InvalidTypeLength,
    /// Chunk data requested as text is not valid UTF-8.
    InvalidUtf8,
    /// The input ends before a field or a declared chunk length does.
    TruncatedInput,
    /// The checksum stored in a chunk does not match its contents.
    InvalidCrc(Expectations),
    /// The first eight bytes are not the PNG file signature.
    InvalidPngSignature,
    /// No chunk with the requested type code exists.
    ChunkNotFound,
}

} // verus!
