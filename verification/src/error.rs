//! The ways in which reading or rebuilding an archive can fail.

use vstd::prelude::*;

verus! {

/// Why an operation on the archive or on one of its assets was given up.
#[derive(Clone, Copy, Debug, PartialEq, Eq, Structural)]
pub enum AssetError {
    /// The bytes of the archive do not follow its layout, or the entries of
    /// a folder cannot be laid out as an archive.
    FormatError,
    /// The bytes or the text of an asset are not what its kind asks for.
    CodecError,
    /// A payload is compressed, and was handed in without being unpacked.
    CompressionError,
}

} // verus!
