//! The ways in which evaluating or validating a graph can fail.

use vstd::prelude::*;

verus! {

/// A failure of evaluation or validation.
///
/// `InvalidIndex`, `MissingHint` and `UnsetOutput` report structural misuse of
/// the graph; `Overflow` reports a result that does not fit in 32 bits;
/// `ConstraintViolation` reports values that contradict the graph.
#[derive(Debug, Copy, Clone, PartialEq, Eq)]
pub enum GraphError {
    /// `index` does not name a node of the graph.
    InvalidIndex { index: usize },
    /// `node` was used as a hint but carries no hint link.
    MissingHint { node: usize },
    /// The output of `node` was needed but has not been set.
    UnsetOutput { node: usize },
    /// The exact result of the computed node `node` exceeds `u32::MAX`.
    Overflow { node: usize },
    /// The value held at `node` is `actual` where the graph demands `expected`.
    ConstraintViolation { node: usize, expected: u32, actual: u32 },
}

impl GraphError {
    /// Whether the error reports misuse of the graph's structure rather than
    /// inconsistent or oversized values.
    pub open spec fn structural(self) -> bool {
        self is InvalidIndex || self is MissingHint || self is UnsetOutput
    }

    /// Tells structural misuse apart from failures caused by the values.
    pub fn is_structural(&self) -> (r: bool)
        ensures
            r == self.structural(),
    {
        match self {
            GraphError::InvalidIndex { .. } => true,
            GraphError::MissingHint { .. } => true,
            GraphError::UnsetOutput { .. } => true,
            GraphError::Overflow { .. } => false,
            GraphError::ConstraintViolation { .. } => false,
        }
    }
}

} // verus!
