use vstd::prelude::*;

verus! {

/// Why a set of sizing inputs describes no index.
#[derive(Clone, Copy, Debug, PartialEq, Eq, Structural)]
pub enum ConfigError {
    /// The size of a value is zero, so the number of values is undefined.
    ZeroValueSize,
    /// The size of an index entry is zero.
    ZeroEntrySize,
    /// The size of an index entry in bytes exceeds a `u64`.
    EntrySizeOverflow,
    /// The level beneath the index covers no values.
    ZeroBaseCoverage,
    /// A block holds at most one entry, so a level covers no more than the
    /// level beneath it and the index would never reach the top.
    FanoutTooSmall,
    /// The size of a block in bytes exceeds a `u64`.
    BlockSizeOverflow,
    /// The coverage of a level exceeds a `u64` before it reaches the number
    /// of values.
    CoverageOverflow,
}

} // verus!
