//! Numerical-precision policy.
pub mod precision;
