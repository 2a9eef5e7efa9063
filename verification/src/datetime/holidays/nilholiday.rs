use vstd::prelude::*;

use crate::datetime::calendar::Calendar;
use crate::datetime::date::Date;
use crate::datetime::holiday::Holiday;
use crate::datetime::weekday::Weekday;
use crate::datetime::weekend::{NilWeekend, Weekend};

verus! {

/// Calendar for reproducing theoretical calculations.
/// This calendar has no holidays. It ensures that dates at whole-month distances have the same
/// day of month.
#[derive(Clone, Copy, Debug)]
pub struct NilHoliday {
    pub weekend: Weekend,
}

impl NilHoliday {
    /// The calendar without holidays.
    #[allow(clippy::new_ret_no_self)]
    pub fn new() -> (r: Calendar)
        ensures
            r.holiday == Holiday::NilHoliday(NilHoliday { weekend: Weekend::NilWeekend(NilWeekend {}) }),
    {
        Calendar::new(Holiday::NilHoliday(Self { weekend: Weekend::NilWeekend(NilWeekend {}) }))
    }

    pub fn name(&self) -> (r: String)
        ensures
            r@ == "Null"@,
    {
        "Null".to_owned()
    }

    /// Every day is a business day.
    pub open spec fn is_business_day_spec(self, s: int) -> bool {
        true
    }

    pub fn is_business_day(&self, _date: &Date) -> (r: bool)
        ensures
            r == self.is_business_day_spec(_date@),
    {
        true
    }

    pub fn is_weekend(&self, weekday: Weekday) -> (r: bool)
        ensures
            r == self.weekend.spec_is_weekend(weekday),
    {
        self.weekend.is_weekend(weekday)
    }
}

} // verus!
