use vstd::prelude::*;

use crate::datetime::calendar::Calendar;
use crate::datetime::date::{
    day_of_serial, day_of_year_of_serial, is_valid_serial, month_of_serial, weekday_of_serial,
    year_of_serial, Date,
};
use crate::datetime::holiday::{
    easter_monday, easter_monday_of, easter_sunday_serial, lemma_easter_offset, Holiday,
};
use crate::datetime::months::Month;
use crate::datetime::weekday::Weekday;
use crate::datetime::weekend::{Weekend, WesternWeekend};

verus! {

/// Italian calendars.
#[derive(Clone, Copy, Debug)]
pub struct Italy {}

impl Italy {
    /// The default calendar is the settlement calendar
    #[allow(clippy::new_ret_no_self)]
    pub fn new() -> (r: Calendar)
        ensures
            r.holiday == Holiday::ItalySettlement(ItalySettlement { weekend: Weekend::WesternWeekend(WesternWeekend {}) }),
    {
        ItalySettlement::new()
    }

    /// The Milan stock exchange calendar.
    pub fn exchange() -> (r: Calendar)
        ensures
            r.holiday == Holiday::ItalyExchange(ItalyExchange { weekend: Weekend::WesternWeekend(WesternWeekend {}) }),
    {
        ItalyExchange::new()
    }
}

/// Italian settlement holidays.
#[derive(Clone, Copy, Debug)]
pub struct ItalySettlement {
    pub weekend: Weekend,
}

impl ItalySettlement {
    /// The Italian settlement calendar.
    #[allow(clippy::new_ret_no_self)]
    pub fn new() -> (r: Calendar)
        ensures
            r.holiday == Holiday::ItalySettlement(ItalySettlement { weekend: Weekend::WesternWeekend(WesternWeekend {}) }),
    {
        Calendar::new(Holiday::ItalySettlement(Self { weekend: Weekend::WesternWeekend(WesternWeekend {}) }))
    }

    pub fn name(&self) -> (r: String)
        ensures
            r@ == "Italian settlement"@,
    {
        "Italian settlement".to_owned()
    }

    /// Whether the date with serial number `s` is a business day.
    pub open spec fn is_business_day_spec(self, s: int) -> bool {
        let w = weekday_of_serial(s);
        let d = day_of_serial(s);
        let dd = day_of_year_of_serial(s);
        let m = month_of_serial(s);
        let y = year_of_serial(s);
        let em = easter_monday_of(y);
        !(self.weekend.spec_is_weekend(w)
        // New Year's Day
        || (d == 1 && m == 1)
        // Epiphany
        || (d == 6 && m == 1)
        // Easter Monday
        || (dd == em)
        // Liberation Day
        || (d == 25 && m == 4)
        // Labour Day
        || (d == 1 && m == 5)
        // Republic Day
        || (d == 2 && m == 6 && y >= 2000)
        // Assumption
        || (d == 15 && m == 8)
        // All Saints' Day
        || (d == 1 && m == 11)
        // Immaculate Conception
        || (d == 8 && m == 12)
        // Christmas
        || (d == 25 && m == 12)
        // St. Stephen
        || (d == 26 && m == 12)
        // December 31st, 1999 only
        || (d == 31 && m == 12 && y == 1999))
    }

    pub fn is_business_day(&self, date: &Date) -> (r: bool)
        ensures
            r == self.is_business_day_spec(date@),
    {
        let w = date.weekday();
        let d = date.day_of_month();
        let dd = date.day_of_year();
        let m = date.month();
        let y = date.year();
        let em = easter_monday(y);

        if self.is_weekend(w)
            // New Year's Day
            || (d == 1 && m == Month::January)
            // Epiphany
            || (d == 6 && m == Month::January)
            // Easter Monday
            || (dd == em)
            // Liberation Day
            || (d == 25 && m == Month::April)
            // Labour Day
            || (d == 1 && m == Month::May)
            // Republic Day
            || (d == 2 && m == Month::June && y >= 2000)
            // Assumption
            || (d == 15 && m == Month::August)
            // All Saints' Day
            || (d == 1 && m == Month::November)
            // Immaculate Conception
            || (d == 8 && m == Month::December)
            // Christmas
            || (d == 25 && m == Month::December)
            // St. Stephen
            || (d == 26 && m == Month::December)
            // December 31st, 1999 only
            || (d == 31 && m == Month::December && y == 1999)
        {
            return false;
        }

        true
    }

    pub fn is_weekend(&self, weekday: Weekday) -> (r: bool)
        ensures
            r == self.weekend.spec_is_weekend(weekday),
    {
        self.weekend.is_weekend(weekday)
    }
}

/// Holidays of the Milan stock exchange.
#[derive(Clone, Copy, Debug)]
pub struct ItalyExchange {
    pub weekend: Weekend,
}

impl ItalyExchange {
    /// The Milan stock exchange calendar.
    #[allow(clippy::new_ret_no_self)]
    pub fn new() -> (r: Calendar)
        ensures
            r.holiday == Holiday::ItalyExchange(ItalyExchange { weekend: Weekend::WesternWeekend(WesternWeekend {}) }),
    {
        Calendar::new(Holiday::ItalyExchange(Self { weekend: Weekend::WesternWeekend(WesternWeekend {}) }))
    }

    pub fn name(&self) -> (r: String)
        ensures
            r@ == "Milan stock exchange"@,
    {
        "Milan stock exchange".to_owned()
    }

    /// Whether the date with serial number `s` is a business day.
    pub open spec fn is_business_day_spec(self, s: int) -> bool {
        let w = weekday_of_serial(s);
        let d = day_of_serial(s);
        let dd = day_of_year_of_serial(s);
        let m = month_of_serial(s);
        let y = year_of_serial(s);
        let em = easter_monday_of(y);
        !(self.weekend.spec_is_weekend(w)
        // New Year's Day
        || (d == 1 && m == 1)
        // Good Friday
        || (dd == em - 3)
        // Easter Monday
        || (dd == em)
        // Labour Day
        || (d == 1 && m == 5)
        // Assumption
        || (d == 15 && m == 8)
        // Christmas' Eve
        || (d == 24 && m == 12)
        // Christmas
        || (d == 25 && m == 12)
        // St. Stephen
        || (d == 26 && m == 12)
        // New Year's Eve
        || (d == 31 && m == 12))
    }

    pub fn is_business_day(&self, date: &Date) -> (r: bool)
        ensures
            r == self.is_business_day_spec(date@),
    {
        let w = date.weekday();
        let d = date.day_of_month();
        let dd = date.day_of_year();
        let m = date.month();
        let y = date.year();
        let em = easter_monday(y);

        if self.is_weekend(w)
            // New Year's Day
            || (d == 1 && m == Month::January)
            // Good Friday
            || (dd == em-3)
            // Easter Monday
            || (dd == em)
            // Labour Day
            || (d == 1 && m == Month::May)
            // Assumption
            || (d == 15 && m == Month::August)
            // Christmas' Eve
            || (d == 24 && m == Month::December)
            // Christmas
            || (d == 25 && m == Month::December)
            // St. Stephen
            || (d == 26 && m == Month::December)
            // New Year's Eve
            || (d == 31 && m == Month::December)
        {
            return false;
        }

        true
    }

    pub fn is_weekend(&self, weekday: Weekday) -> (r: bool)
        ensures
            r == self.weekend.spec_is_weekend(weekday),
    {
        self.weekend.is_weekend(weekday)
    }
}


/// The Italian settlement calendar: a day is a business day exactly when it is neither a
/// Saturday nor a Sunday nor New Year's Day, Epiphany, Easter Monday (the day after Easter
/// Sunday), Liberation Day, Labour Day, Republic Day (from 2000 on), Assumption, All
/// Saints' Day, Immaculate Conception, Christmas, St. Stephen's Day, nor December 31st, 1999.
pub proof fn lemma_italy_settlement_holidays(s: int)
    requires
        is_valid_serial(s),
    ensures
        ({
            let w = weekday_of_serial(s);
            let d = day_of_serial(s);
            let m = month_of_serial(s);
            let y = year_of_serial(s);
            let e = easter_sunday_serial(y);
            (ItalySettlement { weekend: Weekend::WesternWeekend(WesternWeekend {}) }).is_business_day_spec(s)
                == !(w == Weekday::Saturday || w == Weekday::Sunday || (d == 1 && m == 1) || (d == 6 && m == 1) || s == e + 1 || (d == 25 && m == 4) || (d == 1 && m == 5) || (d == 2 && m == 6 && y >= 2000) || (d == 15 && m == 8) || (d == 1 && m == 11) || (d == 8 && m == 12) || (d == 25 && m == 12) || (d == 26 && m == 12) || (d == 31 && m == 12 && y == 1999))
        }),
{
    lemma_easter_offset(s, 0);
}

/// The Milan stock exchange calendar: a day is a business day exactly when it is neither a
/// Saturday nor a Sunday nor New Year's Day, Good Friday (two days before Easter Sunday),
/// Easter Monday, Labour Day, Assumption, Christmas Eve, Christmas, St. Stephen's Day or
/// New Year's Eve.
pub proof fn lemma_italy_exchange_holidays(s: int)
    requires
        is_valid_serial(s),
    ensures
        ({
            let w = weekday_of_serial(s);
            let d = day_of_serial(s);
            let m = month_of_serial(s);
            let y = year_of_serial(s);
            let e = easter_sunday_serial(y);
            (ItalyExchange { weekend: Weekend::WesternWeekend(WesternWeekend {}) }).is_business_day_spec(s)
                == !(w == Weekday::Saturday || w == Weekday::Sunday || (d == 1 && m == 1) || s == e - 2 || s == e + 1 || (d == 1 && m == 5) || (d == 15 && m == 8) || (d == 24 && m == 12) || (d == 25 && m == 12) || (d == 26 && m == 12) || (d == 31 && m == 12))
        }),
{
    lemma_easter_offset(s, -3);
    lemma_easter_offset(s, 0);
}

} // verus!
