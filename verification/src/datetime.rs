//! Dates, calendars, day counters and schedules.

pub mod businessdayconvention;
pub mod computus;
pub mod calendar;
pub mod date;
pub mod date_order;
pub mod daycounter;
pub mod daycounters;
pub mod dategenerationrule;
pub mod frequency;
pub mod holiday;
pub mod holidays;
pub mod imm;
pub mod months;
pub mod period;
pub mod schedule;
pub mod schedule_laws;
pub mod schedule_rules;
pub mod schedulebuilder;
pub mod timeunit;
pub mod weekday;
pub mod weekend;

use vstd::prelude::*;

verus! {

/// Day of a month (1-based).
pub type Day = u32;

/// Serial number of a date as used by spreadsheets: 1900-01-01 has serial number 2.
pub type SerialNumber = i32;

/// Calendar year.
pub type Year = i32;

} // verus!
