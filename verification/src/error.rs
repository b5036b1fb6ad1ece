//! Typed failures of the communication core.

use vstd::prelude::*;

verus! {

/// Every way a communication operation can fail.
#[derive(Clone, Copy, Debug, PartialEq, Eq, Structural)]
pub enum CommError {
    /// A target or source rank lies outside `[0, size)`.
    InvalidRank,
    /// The process group is unreachable or torn down; no later operation on
    /// it can succeed.
    TransportError,
    /// A receive buffer's size disagrees with the transmitted or expected
    /// element count.
    ShapeMismatch,
    /// A non-blocking send's buffer was reused, or its request dropped,
    /// before completion; fatal by design, never recovered from.
    ContractViolation,
}

impl CommError {
    /// A short human-readable name for the failure.
    pub fn describe(&self) -> (r: &'static str)
        ensures
            self is InvalidRank ==> r@ == "invalid rank"@,
            self is TransportError ==> r@ == "transport error"@,
            self is ShapeMismatch ==> r@ == "shape mismatch"@,
            self is ContractViolation ==> r@ == "contract violation"@,
    {
        match self {
            CommError::InvalidRank => "invalid rank",
            CommError::TransportError => "transport error",
            CommError::ShapeMismatch => "shape mismatch",
            CommError::ContractViolation => "contract violation",
        }
    }
}

} // verus!
