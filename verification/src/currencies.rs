//! Currencies of the world, grouped by region.

pub mod africa;
pub mod america;
pub mod asia;
pub mod currency;
pub mod europe;
pub mod oceania;
