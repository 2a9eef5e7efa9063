use vstd::prelude::*;

use crate::datetime::calendar::Calendar;
use crate::datetime::date::{
    day_of_serial, day_of_year_of_serial, is_valid_serial, month_of_serial, weekday_of_serial,
    year_of_serial, Date,
};
use crate::datetime::holiday::{
    easter_monday, easter_monday_of, easter_sunday_serial, lemma_easter_offset, Holiday,
};
use crate::datetime::months::Month;
use crate::datetime::weekday::Weekday;
use crate::datetime::weekend::{Weekend, WesternWeekend};

verus! {

/// Swiss calendar
///
/// Holidays:
/// * Saturdays
/// * Sundays
/// * New Year's Day, January 1st
/// * Berchtoldstag, January 2nd
/// * Good Friday
/// * Easter Monday
/// * Ascension Day
/// * Whit Monday
/// * Labour Day, May 1st
/// * National Day, August 1st
/// * Christmas, December 25th
/// * St. Stephen's Day, December 26th
#[derive(Clone, Copy, Debug)]
pub struct Switzerland {
    pub weekend: Weekend,
}

impl Switzerland {
    /// The Swiss calendar.
    #[allow(clippy::new_ret_no_self)]
    pub fn new() -> (r: Calendar)
        ensures
            r.holiday == Holiday::Switzerland(Switzerland { weekend: Weekend::WesternWeekend(WesternWeekend {}) }),
    {
        Calendar::new(Holiday::Switzerland(Self { weekend: Weekend::WesternWeekend(WesternWeekend {}) }))
    }

    pub fn name(&self) -> (r: String)
        ensures
            r@ == "Switzerland"@,
    {
        "Switzerland".to_owned()
    }

    /// Whether the date with serial number `s` is a business day.
    pub open spec fn is_business_day_spec(self, s: int) -> bool {
        let w = weekday_of_serial(s);
        let d = day_of_serial(s);
        let dd = day_of_year_of_serial(s);
        let m = month_of_serial(s);
        let y = year_of_serial(s);
        let em = easter_monday_of(y);
        !(self.weekend.spec_is_weekend(w)
        // New Year's Day
        || (d == 1 && m == 1)
        // Berchtoldstag
        || (d == 2 && m == 1)
        // Good Friday
        || (dd == em - 3)
        // Easter Monday
        || (dd == em)
        // Ascension Day
        || (dd == em + 38)
        // Whit Monday
        || (dd == em + 49)
        // Labour Day
        || (d == 1 && m == 5)
        // National Day
        || (d == 1 && m == 8)
        // Christmas
        || (d == 25 && m == 12)
        // St. Stephen's Day
        || (d == 26 && m == 12))
    }

    pub fn is_business_day(&self, date: &Date) -> (r: bool)
        ensures
            r == self.is_business_day_spec(date@),
    {
        let w = date.weekday();
        let d = date.day_of_month();
        let dd = date.day_of_year();
        let m = date.month();
        let y = date.year();
        let em = easter_monday(y);

        if self.is_weekend(w)
            // New Year's Day
            || (d == 1  && m == Month::January)
            // Berchtoldstag
            || (d == 2  && m == Month::January)
            // Good Friday
            || (dd == em-3)
            // Easter Monday
            || (dd == em)
            // Ascension Day
            || (dd == em+38)
            // Whit Monday
            || (dd == em+49)
            // Labour Day
            || (d == 1  && m == Month::May)
            // National Day
            || (d == 1  && m == Month::August)
            // Christmas
            || (d == 25 && m == Month::December)
            // St. Stephen's Day
            || (d == 26 && m == Month::December)
        {
            return false;
        }
        true
    }

    pub fn is_weekend(&self, weekday: Weekday) -> (r: bool)
        ensures
            r == self.weekend.spec_is_weekend(weekday),
    {
        self.weekend.is_weekend(weekday)
    }
}

/// The Swiss calendar: a day is a business day exactly when it is neither a Saturday nor a
/// Sunday nor one of New Year's Day, Berchtoldstag (January 2nd), Good Friday (two days
/// before Easter Sunday), Easter Monday (the day after), Ascension Day (39 days after Easter
/// Sunday), Whit Monday (50 days after), Labour Day (May 1st), National Day (August 1st),
/// Christmas and St. Stephen's Day.
pub proof fn lemma_swiss_holidays(s: int)
    requires
        is_valid_serial(s),
    ensures
        ({
            let w = weekday_of_serial(s);
            let d = day_of_serial(s);
            let m = month_of_serial(s);
            let e = easter_sunday_serial(year_of_serial(s));
            (Switzerland { weekend: Weekend::WesternWeekend(WesternWeekend {}) }).is_business_day_spec(s)
                == !(w == Weekday::Saturday || w == Weekday::Sunday || (d == 1 && m == 1) || (d
                == 2 && m == 1) || s == e - 2 || s == e + 1 || s == e + 39 || s == e + 50 || (d
                == 1 && m == 5) || (d == 1 && m == 8) || (d == 25 && m == 12) || (d == 26 && m
                == 12))
        }),
{
    lemma_easter_offset(s, -3);
    lemma_easter_offset(s, 0);
    lemma_easter_offset(s, 38);
    lemma_easter_offset(s, 49);
}

} // verus!
