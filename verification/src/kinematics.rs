//! Kinematic conventions and combinatorics.
use vstd::prelude::*;

use crate::graph::factorial_spec;

verus! {

/// Reference frame of a kinematic calculation.
#[derive(Debug, Clone, Copy, PartialEq, Eq, Hash, Structural)]
pub enum ReferenceFrame {
    /// Centre-of-mass frame.
    CentreOfMass,
    /// Laboratory (fixed-target) frame.
    Lab,
}

/// `n!` as a `u64` (defined for `n <= 20`, the largest that fits).
pub fn factorial(n: usize) -> (f: u64)
    requires
        n <= 20,
    ensures
        f == factorial_spec(n as nat),
{
    let mut f: u64 = 1;
    let mut k: u64 = 1;
    while k <= n as u64
        invariant
            1 <= k <= n + 1,
            n <= 20,
            f == factorial_spec((k - 1) as nat),
        decreases n + 1 - k,
    {
        proof {
            crate::graph::lemma_factorial_monotone(k as nat, 20);
            crate::graph::lemma_factorial_twenty();
            assert(factorial_spec(k as nat) == k * factorial_spec((k - 1) as nat));
            assert(k * f <= 2432902008176640000);
        }
        f = k * f;
        k = k + 1;
    }
    f
}

} // verus!
