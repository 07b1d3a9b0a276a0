//! The shared error type for rejected chunker configurations.

use vstd::prelude::*;

verus! {

/// Why a chunker configuration was refused at construction time.
///
/// Every chunker constructor validates its size parameters eagerly and
/// refuses to build a chunker from values outside the documented bounds;
/// no partial or best-effort construction is offered. The exact bounds
/// differ between the algorithm variants and are defined in each module.
#[derive(Debug, Clone, Copy, PartialEq, Eq, Structural)]
pub enum ConfigError {
    /// The minimum chunk size is below the smallest acceptable value.
    MinimumTooLow,
    /// The minimum chunk size is above the largest acceptable value.
    MinimumTooHigh,
    /// The average chunk size is below the smallest acceptable value.
    AverageTooLow,
    /// The average chunk size is above the largest acceptable value.
    AverageTooHigh,
    /// The maximum chunk size is below the smallest acceptable value.
    MaximumTooLow,
    /// The maximum chunk size is above the largest acceptable value.
    MaximumTooHigh,
}

} // verus!
