//! Errors of the sampling and normalization engine.

use vstd::prelude::*;

verus! {

/// What can go wrong while building a transform table or normalizing.
#[derive(Clone, Copy, Debug, PartialEq, Eq, Structural)]
pub enum IfsError {
    /// The transform table is empty or has no transform of positive weight,
    /// so weighted selection over it would be undefined.
    InvalidWeights,
    /// Normalization was attempted while all pending points share one x
    /// coordinate or one y coordinate, so the linear remap would divide by a
    /// zero-width source range.
    DegenerateBounds,
}

} // verus!
