//! Financial instruments.

pub mod bond;
pub mod creditdefaultswap;
