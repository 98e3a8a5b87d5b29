use vstd::prelude::*;

verus! {

/// The ways in which a chunk or a chunk type can be rejected.
#[derive(Debug, Clone, Copy, PartialEq, Eq, Structural)]
pub enum FormatError {
    /// The type code is not four ASCII letters.
    InvalidTag,
    /// The buffer is shorter than the fixed fields or the declared length require.
    Truncated,
    /// The declared length disagrees with the payload actually present.
    LengthMismatch,
    /// The trailing checksum disagrees with the one computed from tag and payload.
    CrcMismatch,
    /// Bytes requested as text are not valid UTF-8.
    NotUtf8,
}

} // verus!
