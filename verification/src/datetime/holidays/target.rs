use vstd::prelude::*;

use crate::datetime::calendar::Calendar;
use crate::datetime::date::{
    day_of_serial, day_of_year_of_serial, is_valid_serial, month_of_serial, weekday_of_serial,
    year_of_serial, Date,
};
use crate::datetime::holiday::{
    easter_monday, easter_monday_of, easter_sunday_serial, lemma_easter_offset, Holiday,
};
use crate::datetime::months::Month;
use crate::datetime::weekday::Weekday;
use crate::datetime::weekend::{Weekend, WesternWeekend};

verus! {

/// TARGET calendar
///
/// Holidays (see [ECB](http://www.ecb.int)):
/// * Saturdays
/// * Sundays
/// * New Year's Day, January 1st
/// * Good Friday (since 2000)
/// * Easter Monday (since 2000)
/// * Labour Day, May 1st (since 2000)
/// * Christmas, December 25th
/// * Day of Goodwill, December 26th (since 2000)
/// * December 31st (1998, 1999, and 2001)
#[derive(Clone, Copy, Debug)]
pub struct Target {
    pub weekend: Weekend,
}

impl Target {
    /// The TARGET calendar.
    #[allow(clippy::new_ret_no_self)]
    pub fn new() -> (r: Calendar)
        ensures
            r.holiday == Holiday::Target(Target { weekend: Weekend::WesternWeekend(WesternWeekend {}) }),
    {
        Calendar::new(Holiday::Target(Self { weekend: Weekend::WesternWeekend(WesternWeekend {}) }))
    }

    pub fn name(&self) -> (r: String)
        ensures
            r@ == "TARGET"@,
    {
        "TARGET".to_owned()
    }

    /// Whether the date with serial number `s` is a business day.
    pub open spec fn is_business_day_spec(self, s: int) -> bool {
        let w = weekday_of_serial(s);
        let d = day_of_serial(s);
        let dd = day_of_year_of_serial(s);
        let m = month_of_serial(s);
        let y = year_of_serial(s);
        let em = easter_monday_of(y);
        !(self.weekend.spec_is_weekend(w)
        // New Year's day
        || (d == 1 && m == 1)
        // Good Friday
        || (dd == em - 3 && y >= 2000)
        // Easter Monday
        || (dd == em && y >= 2000)
        // Labour Day
        || (d == 1 && m == 5 && y >= 2000)
        // Christmas
        || (d == 25 && m == 12)
        // Day of Goodwill
        || (d == 26 && m == 12 && y >= 2000)
        // December 31st, 1998, 1999, and 2001 only
        || (d == 31 && m == 12 && (y == 1998 || y == 1999 || y == 2001)))
    }

    pub fn is_business_day(&self, date: &Date) -> (r: bool)
        ensures
            r == self.is_business_day_spec(date@),
    {
        let weekday = date.weekday();
        let day_of_month = date.day_of_month();
        let day_of_year = date.day_of_year();
        let month = date.month();
        let year = date.year();
        let easter_monday = easter_monday(year);

        if self.is_weekend(weekday)
            // New Year's day
            || (day_of_month == 1 && month == Month::January)
            // Good Friday
            || (day_of_year == easter_monday - 3 && year >= 2000)
            // Easter Monday
            || (day_of_year == easter_monday && year >= 2000)
            // Labour Day
            || (day_of_month == 1 && month == Month::May && year >= 2000)
            // Christmas
            || (day_of_month == 25 && month == Month::December)
            // Day of Goodwill
            || (day_of_month == 26 && month == Month::December && year >= 2000)
            // December 31st, 1998, 1999, and 2001 only
            || (day_of_month == 31 && month == Month::December &&
                (year == 1998 || year == 1999 || year == 2001))
        {
            return false;
        }
        true
    }

    pub fn is_weekend(&self, weekday: Weekday) -> (r: bool)
        ensures
            r == self.weekend.spec_is_weekend(weekday),
    {
        self.weekend.is_weekend(weekday)
    }
}


/// The TARGET calendar: a day is a business day exactly when it is neither a Saturday nor a
/// Sunday nor New Year's Day, nor Christmas, nor, from 2000 on, Good Friday (two days
/// before Easter Sunday), Easter Monday, Labour Day or the Day of Goodwill (December 26th),
/// nor December 31st of 1998, 1999 or 2001.
pub proof fn lemma_target_holidays(s: int)
    requires
        is_valid_serial(s),
    ensures
        ({
            let w = weekday_of_serial(s);
            let d = day_of_serial(s);
            let m = month_of_serial(s);
            let y = year_of_serial(s);
            let e = easter_sunday_serial(y);
            (Target { weekend: Weekend::WesternWeekend(WesternWeekend {}) }).is_business_day_spec(s)
                == !(w == Weekday::Saturday || w == Weekday::Sunday || (d == 1 && m == 1) || (s == e - 2 && y >= 2000) || (s == e + 1 && y >= 2000) || (d == 1 && m == 5 && y >= 2000) || (d == 25 && m == 12) || (d == 26 && m == 12 && y >= 2000) || (d == 31 && m == 12 && (y == 1998 || y == 1999 || y == 2001)))
        }),
{
    lemma_easter_offset(s, -3);
    lemma_easter_offset(s, 0);
}

} // verus!
