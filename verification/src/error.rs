use vstd::prelude::*;

verus! {

/// Why a recalculation of points was abandoned.
#[derive(Clone, Copy, Debug, PartialEq, Eq, Structural)]
pub enum RecomputeError {
    /// A match refers to a stage outside 1..=6.
    InvalidStage,
    /// The store could not take or give what the recalculation needed.
    StorageFailure,
}

} // verus!
