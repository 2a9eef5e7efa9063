//! Day count conventions.

pub mod actualactual;
pub mod one;
pub mod thirty360;
pub mod thirty365;
