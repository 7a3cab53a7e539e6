//! Precision escalation flag of compensated summation.
use vstd::prelude::*;

verus! {

/// Adaptive precision escalation flag.
#[derive(Debug, Clone, Copy, PartialEq, Eq, Structural)]
pub enum PrecisionEscalation {
    /// Standard double precision sufficed.
    Standard,
    /// Cancellation detected; re-evaluated with the fallback strategy.
    EscalatedFallback,
}

} // verus!
