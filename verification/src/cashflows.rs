//! Cash flows: the dates of coupons and when they count as paid.

pub mod cashflow;
pub mod fixedratecouponbuilder;
