//! The ways in which decoding a WAD or one of its lumps can fail.

use vstd::prelude::*;

verus! {

/// Why a container or a lump was rejected.
///
/// Every failure is reported to the caller; nothing is recovered from inside
/// the decoders, and a failure anywhere rejects the whole input.
#[derive(Debug, Clone, Copy, PartialEq, Eq, Structural)]
pub enum WadError {
    /// The four tag bytes of the header are neither `IWAD` nor `PWAD`.
    UnrecognizedFormat,
    /// A read asked for more bytes than were left.
    TruncatedInput,
    /// The storage ends before the directory that the header announces.
    TruncatedDirectory,
    /// Bytes were left over after a structure that must fill its input.
    TrailingData,
    /// A lump of fixed shape has a length that its shape does not allow.
    InvalidLength,
    /// A record addressed by an offset does not lie inside its buffer.
    OutOfBounds,
    /// A name holds a byte above 127.
    InvalidCharacter,
    /// The buffer handed to a lump read is not as long as the lump.
    SizeMismatch,
    /// The storage does not hold the byte range that a directory entry names.
    IoFailure,
}

} // verus!
