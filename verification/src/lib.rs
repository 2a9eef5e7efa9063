//! Building blocks of a quantitative finance library: dates, calendars, day counters,
//! schedules and currencies, with their contracts checked by Verus.

pub mod cashflows;
pub mod context;
pub mod currencies;
pub mod datetime;
pub mod instruments;
pub mod maths;
