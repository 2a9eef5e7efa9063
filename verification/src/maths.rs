//! Numerical helpers.

pub mod rounding;
