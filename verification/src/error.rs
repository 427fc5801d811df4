//! Errors reported by layer constructors and forward-pass checks.
use vstd::prelude::*;

verus! {

/// Why a layer rejected its configuration or an input.
#[derive(Debug, Clone, Copy, PartialEq, Eq, Structural)]
pub enum NnError {
    /// A weight or input has another number of dimensions than required.
    WrongRank { expected: usize, got: usize },
    /// An input has fewer dimensions than the layer needs.
    RankTooLow { min: usize, got: usize },
    /// The channel dimension of an input differs from the layer's.
    ChannelMismatch { expected: usize, got: usize },
    /// A size must be a multiple of another: the model width of the number
    /// of heads, the channel count of the number of groups.
    NotDivisible { size: usize, divisor: usize },
    /// A requested output size is zero.
    ZeroOutputSize,
    /// A target class index is not below the number of classes.
    TargetOutOfRange { index: usize, classes: usize },
}

} // verus!
