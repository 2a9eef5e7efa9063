//! Holiday rules of the calendars.

pub mod brazil;
pub mod italy;
pub mod japan;
pub mod nilholiday;
pub mod switzerland;
pub mod target;
pub mod unitedkingdom;
pub mod weekendsonly;
