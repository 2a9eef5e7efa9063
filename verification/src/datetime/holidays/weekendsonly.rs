use vstd::prelude::*;

use crate::datetime::calendar::Calendar;
use crate::datetime::date::{weekday_of_serial, Date};
use crate::datetime::holiday::Holiday;
use crate::datetime::weekday::Weekday;
use crate::datetime::weekend::{Weekend, WesternWeekend};

verus! {

/// Weekends-only calendar
///
/// This calendar has no bank holidays except for weekends (Saturdays and Sundays) as required
/// by ISDA for calculating conventional CDS spreads.
#[derive(Clone, Copy, Debug)]
pub struct WeekendsOnly {
    pub weekend: Weekend,
}

impl WeekendsOnly {
    /// The weekends-only calendar.
    #[allow(clippy::new_ret_no_self)]
    pub fn new() -> (r: Calendar)
        ensures
            r.holiday == Holiday::WeekendsOnly(WeekendsOnly { weekend: Weekend::WesternWeekend(WesternWeekend {}) }),
    {
        Calendar::new(Holiday::WeekendsOnly(Self { weekend: Weekend::WesternWeekend(WesternWeekend {}) }))
    }

    pub fn name(&self) -> (r: String)
        ensures
            r@ == "weekends only"@,
    {
        "weekends only".to_owned()
    }

    /// Business days are the days that are not weekend days.
    pub open spec fn is_business_day_spec(self, s: int) -> bool {
        !self.weekend.spec_is_weekend(weekday_of_serial(s))
    }

    pub fn is_business_day(&self, date: &Date) -> (r: bool)
        ensures
            r == self.is_business_day_spec(date@),
    {
        !self.is_weekend(date.weekday())
    }

    pub fn is_weekend(&self, weekday: Weekday) -> (r: bool)
        ensures
            r == self.weekend.spec_is_weekend(weekday),
    {
        self.weekend.is_weekend(weekday)
    }
}

} // verus!
