//! Next-to-leading-order subtraction.
pub mod dipole;
