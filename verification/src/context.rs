//! Contextual information for pricing.

pub mod pricing_context;
