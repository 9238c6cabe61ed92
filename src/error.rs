use vstd::prelude::*;

verus! {

/// The ways in which a stage of the metadata extraction can fail.
#[derive(Debug, Clone, Copy, PartialEq, Eq, Structural)]
pub enum ExtractError {
    /// Fewer bytes than a fixed-size structure needs.
    MalformedHeader,
    /// The signature of a fixed-size structure is not the expected constant.
    BadMagic,
    /// An archive entry's framing is inconsistent with the bytes available.
    CorruptArchive,
    /// A decompressor rejected its input.
    DecompressionFailed,
    /// A textual pattern had no match anywhere in its search space.
    PatternNotFound,
}

} // verus!
