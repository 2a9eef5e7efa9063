use vstd::prelude::*;

use crate::datetime::calendar::Calendar;
use crate::datetime::date::{
    day_of_serial, day_of_year_of_serial, is_valid_serial, month_of_serial, weekday_of_serial,
    year_of_serial, Date,
};
use crate::datetime::holiday::{
    easter_monday, easter_monday_of, easter_sunday_serial, lemma_easter_offset, Holiday,
};
use crate::datetime::months::Month;
use crate::datetime::weekday::Weekday;
use crate::datetime::weekend::{Weekend, WesternWeekend};
use crate::datetime::{Day, Year};

verus! {

/// United Kingdom calendars.
#[derive(Clone, Copy, Debug)]
pub struct UnitedKingdom {}

impl UnitedKingdom {
    /// The default calendar is the [UnitedKingdomSettlement] calendar
    #[allow(clippy::new_ret_no_self)]
    pub fn new() -> (r: Calendar)
        ensures
            r.holiday == Holiday::UnitedKingdomSettlement(UnitedKingdomSettlement { weekend: Weekend::WesternWeekend(WesternWeekend {}) }),
    {
        UnitedKingdomSettlement::new()
    }

    /// Create an instance of [UnitedKingdomExchange] calendar
    pub fn exchange() -> (r: Calendar)
        ensures
            r.holiday == Holiday::UnitedKingdomExchange(UnitedKingdomExchange { weekend: Weekend::WesternWeekend(WesternWeekend {}) }),
    {
        UnitedKingdomExchange::new()
    }

    /// Create an instance of [UnitedKingdomMetals] calendar
    pub fn metals() -> (r: Calendar)
        ensures
            r.holiday == Holiday::UnitedKingdomMetals(UnitedKingdomMetals { weekend: Weekend::WesternWeekend(WesternWeekend {}) }),
    {
        UnitedKingdomMetals::new()
    }
}

/// The holidays shared by the United Kingdom calendars, weekends apart: the day with day of
/// month `d`, weekday `w`, month number `m`, year `y`, day of year `dd`, when Easter Monday
/// falls on day `em` of the year.
pub open spec fn uk_holiday(d: int, w: Weekday, m: int, y: int, dd: int, em: int) -> bool {
    // New Year's Day (possibly moved to Monday)
    ((d == 1 || ((d == 2 || d == 3) && w == Weekday::Monday)) && m == 1)
    // Good Friday
    || (dd == em - 3)
    // Easter Monday
    || (dd == em)
    || uk_bank_holiday(d, w, m, y)
    // Christmas (possibly moved to Monday or Tuesday)
    || ((d == 25 || (d == 27 && (w == Weekday::Monday || w == Weekday::Tuesday))) && m == 12)
    // Boxing Day (possibly moved to Monday or Tuesday)
    || ((d == 26 || (d == 28 && (w == Weekday::Monday || w == Weekday::Tuesday))) && m == 12)
    // December 31st, 1999 only
    || (d == 31 && m == 12 && y == 1999)
}

/// United Kingdom bank holidays.
pub open spec fn uk_bank_holiday(d: int, w: Weekday, m: int, y: int) -> bool {
    // first Monday of May (Early May Bank Holiday)
    // moved to May 8th in 1995 and 2020 for V.E. day
    (d <= 7 && w == Weekday::Monday && m == 5 && y != 1995 && y != 2020)
    || (d == 8 && m == 5 && (y == 1995 || y == 2020))
    // last Monday of May (Spring Bank Holiday)
    // moved to in 2002, 2012 and 2022 for the Golden, Diamond and Platinum
    // Jubilee with an additional holiday
    || (d >= 25 && w == Weekday::Monday && m == 5 && y != 2002 && y != 2012 && y != 2022)
    || ((d == 3 || d == 4) && m == 6 && y == 2002)
    || ((d == 4 || d == 5) && m == 6 && y == 2012)
    || ((d == 2 || d == 3) && m == 6 && y == 2022)
    // last Monday of August (Summer Bank Holiday)
    || (d >= 25 && w == Weekday::Monday && m == 8)
    // April 29th, 2011 only (Royal Wedding Bank Holiday)
    || (d == 29 && m == 4 && y == 2011)
    // September 19th, 2022 only (The Queen's Funeral Bank Holiday)
    || (d == 19 && m == 9 && y == 2022)
    // May 8th, 2023 (King Charles III Coronation Bank Holiday)
    || (d == 8 && m == 5 && y == 2023)
}

/// UK settlement calendar.
#[derive(Clone, Copy, Debug)]
pub struct UnitedKingdomSettlement {
    pub weekend: Weekend,
}

impl UnitedKingdomSettlement {
    /// The UK settlement calendar.
    #[allow(clippy::new_ret_no_self)]
    pub fn new() -> (r: Calendar)
        ensures
            r.holiday == Holiday::UnitedKingdomSettlement(UnitedKingdomSettlement { weekend: Weekend::WesternWeekend(WesternWeekend {}) }),
    {
        Calendar::new(Holiday::UnitedKingdomSettlement(Self { weekend: Weekend::WesternWeekend(WesternWeekend {}) }))
    }

    pub fn name(&self) -> (r: String)
        ensures
            r@ == "UK settlement"@,
    {
        "UK settlement".to_owned()
    }

    /// Whether the date with serial number `s` is a business day.
    pub open spec fn is_business_day_spec(self, s: int) -> bool {
        !(self.weekend.spec_is_weekend(weekday_of_serial(s)) || uk_holiday(
            day_of_serial(s),
            weekday_of_serial(s),
            month_of_serial(s),
            year_of_serial(s),
            day_of_year_of_serial(s),
            easter_monday_of(year_of_serial(s)),
        ))
    }

    pub fn is_business_day(&self, date: &Date) -> (r: bool)
        ensures
            r == self.is_business_day_spec(date@),
    {
        let w = date.weekday();
        let d = date.day_of_month();
        let dd = date.day_of_year();
        let m = date.month();
        let y = date.year();
        let em = easter_monday(y);

        if self.is_weekend(w)
            // New Year's Day (possibly moved to Monday)
            || ((d == 1 || ((d == 2 || d == 3) && w == Weekday::Monday)) &&
                m == Month::January)
            // Good Friday
            || (dd == em-3)
            // Easter Monday
            || (dd == em)
            || is_bank_holiday(d, w, m, y)
            // Christmas (possibly moved to Monday or Tuesday)
            || ((d == 25 || (d == 27 && (w == Weekday::Monday || w == Weekday::Tuesday)))
                && m == Month::December)
            // Boxing Day (possibly moved to Monday or Tuesday)
            || ((d == 26 || (d == 28 && (w == Weekday::Monday || w == Weekday::Tuesday)))
                && m == Month::December)
            // December 31st, 1999 only
            || (d == 31 && m == Month::December && y == 1999)
        {
            return false;
        }

        true
    }

    pub fn is_weekend(&self, weekday: Weekday) -> (r: bool)
        ensures
            r == self.weekend.spec_is_weekend(weekday),
    {
        self.weekend.is_weekend(weekday)
    }
}

/// London stock exchange calendar.
#[derive(Clone, Copy, Debug)]
pub struct UnitedKingdomExchange {
    pub weekend: Weekend,
}

impl UnitedKingdomExchange {
    /// The London stock exchange calendar.
    #[allow(clippy::new_ret_no_self)]
    pub fn new() -> (r: Calendar)
        ensures
            r.holiday == Holiday::UnitedKingdomExchange(UnitedKingdomExchange { weekend: Weekend::WesternWeekend(WesternWeekend {}) }),
    {
        Calendar::new(Holiday::UnitedKingdomExchange(Self { weekend: Weekend::WesternWeekend(WesternWeekend {}) }))
    }

    pub fn name(&self) -> (r: String)
        ensures
            r@ == "London stock exchange"@,
    {
        "London stock exchange".to_owned()
    }

    /// Whether the date with serial number `s` is a business day.
    pub open spec fn is_business_day_spec(self, s: int) -> bool {
        !(self.weekend.spec_is_weekend(weekday_of_serial(s)) || uk_holiday(
            day_of_serial(s),
            weekday_of_serial(s),
            month_of_serial(s),
            year_of_serial(s),
            day_of_year_of_serial(s),
            easter_monday_of(year_of_serial(s)),
        ))
    }

    pub fn is_business_day(&self, date: &Date) -> (r: bool)
        ensures
            r == self.is_business_day_spec(date@),
    {
        let w = date.weekday();
        let d = date.day_of_month();
        let dd = date.day_of_year();
        let m = date.month();
        let y = date.year();
        let em = easter_monday(y);

        if self.is_weekend(w)
            // New Year's Day (possibly moved to Monday)
            || ((d == 1 || ((d == 2 || d == 3) && w == Weekday::Monday)) &&
                m == Month::January)
            // Good Friday
            || (dd == em-3)
            // Easter Monday
            || (dd == em)
            || is_bank_holiday(d, w, m, y)
            // Christmas (possibly moved to Monday or Tuesday)
            || ((d == 25 || (d == 27 && (w == Weekday::Monday || w == Weekday::Tuesday)))
                && m == Month::December)
            // Boxing Day (possibly moved to Monday or Tuesday)
            || ((d == 26 || (d == 28 && (w == Weekday::Monday || w == Weekday::Tuesday)))
                && m == Month::December)
            // December 31st, 1999 only
            || (d == 31 && m == Month::December && y == 1999)
        {
            return false;
        }

        true
    }

    pub fn is_weekend(&self, weekday: Weekday) -> (r: bool)
        ensures
            r == self.weekend.spec_is_weekend(weekday),
    {
        self.weekend.is_weekend(weekday)
    }
}

/// London metals exchange calendar.
#[derive(Clone, Copy, Debug)]
pub struct UnitedKingdomMetals {
    pub weekend: Weekend,
}

impl UnitedKingdomMetals {
    /// The London metals exchange calendar.
    #[allow(clippy::new_ret_no_self)]
    pub fn new() -> (r: Calendar)
        ensures
            r.holiday == Holiday::UnitedKingdomMetals(UnitedKingdomMetals { weekend: Weekend::WesternWeekend(WesternWeekend {}) }),
    {
        Calendar::new(Holiday::UnitedKingdomMetals(Self { weekend: Weekend::WesternWeekend(WesternWeekend {}) }))
    }

    pub fn name(&self) -> (r: String)
        ensures
            r@ == "London metals exchange"@,
    {
        "London metals exchange".to_owned()
    }

    /// Whether the date with serial number `s` is a business day.
    pub open spec fn is_business_day_spec(self, s: int) -> bool {
        !(self.weekend.spec_is_weekend(weekday_of_serial(s)) || uk_holiday(
            day_of_serial(s),
            weekday_of_serial(s),
            month_of_serial(s),
            year_of_serial(s),
            day_of_year_of_serial(s),
            easter_monday_of(year_of_serial(s)),
        ))
    }

    pub fn is_business_day(&self, date: &Date) -> (r: bool)
        ensures
            r == self.is_business_day_spec(date@),
    {
        let w = date.weekday();
        let d = date.day_of_month();
        let dd = date.day_of_year();
        let m = date.month();
        let y = date.year();
        let em = easter_monday(y);

        if self.is_weekend(w)
            // New Year's Day (possibly moved to Monday)
            || ((d == 1 || ((d == 2 || d == 3) && w == Weekday::Monday)) &&
                m == Month::January)
            // Good Friday
            || (dd == em-3)
            // Easter Monday
            || (dd == em)
            || is_bank_holiday(d, w, m, y)
            // Christmas (possibly moved to Monday or Tuesday)
            || ((d == 25 || (d == 27 && (w == Weekday::Monday || w == Weekday::Tuesday)))
                && m == Month::December)
            // Boxing Day (possibly moved to Monday or Tuesday)
            || ((d == 26 || (d == 28 && (w == Weekday::Monday || w == Weekday::Tuesday)))
                && m == Month::December)
            // December 31st, 1999 only
            || (d == 31 && m == Month::December && y == 1999)
        {
            return false;
        }

        true
    }

    pub fn is_weekend(&self, weekday: Weekday) -> (r: bool)
        ensures
            r == self.weekend.spec_is_weekend(weekday),
    {
        self.weekend.is_weekend(weekday)
    }
}

fn is_bank_holiday(d: Day, w: Weekday, m: Month, y: Year) -> (r: bool)
    ensures
        r == uk_bank_holiday(d as int, w, m.number(), y as int),
{
    // first Monday of May (Early May Bank Holiday)
    // moved to May 8th in 1995 and 2020 for V.E. day
    (d <= 7 && w == Weekday::Monday && m == Month::May && y != 1995 && y != 2020)
                || (d == 8 && m == Month::May && (y == 1995 || y == 2020))
                // last Monday of May (Spring Bank Holiday)
                // moved to in 2002, 2012 and 2022 for the Golden, Diamond and Platinum
                // Jubilee with an additional holiday
                || (d >= 25 && w == Weekday::Monday && m == Month::May && y != 2002 && y != 2012 && y != 2022)
                || ((d == 3 || d == 4) && m == Month::June && y == 2002)
                || ((d == 4 || d == 5) && m == Month::June && y == 2012)
                || ((d == 2 || d == 3) && m == Month::June && y == 2022)
                // last Monday of August (Summer Bank Holiday)
                || (d >= 25 && w == Weekday::Monday && m == Month::August)
                // April 29th, 2011 only (Royal Wedding Bank Holiday)
                || (d == 29 && m == Month::April && y == 2011)
                // September 19th, 2022 only (The Queen's Funeral Bank Holiday)
                || (d == 19 && m == Month::September && y == 2022)
                // May 8th, 2023 (King Charles III Coronation Bank Holiday)
                || (d == 8 && m == Month::May && y == 2023)
}


/// The UK settlement calendar: a day is a business day exactly when it is neither a Saturday
/// nor a Sunday nor New Year's Day (on the Monday after when it falls on a weekend), Good
/// Friday (two days before Easter Sunday), Easter Monday, a bank holiday (the first and last Mondays of May, moved for V.E. day
/// and the jubilees, the last Monday of August, and the one-off royal holidays), Christmas or
/// Boxing Day (moved on past a weekend), nor December 31st, 1999.
pub proof fn lemma_uk_settlement_holidays(s: int)
    requires
        is_valid_serial(s),
    ensures
        ({
            let w = weekday_of_serial(s);
            let d = day_of_serial(s);
            let m = month_of_serial(s);
            let y = year_of_serial(s);
            let e = easter_sunday_serial(y);
            (UnitedKingdomSettlement { weekend: Weekend::WesternWeekend(WesternWeekend {}) }).is_business_day_spec(s)
                == !(w == Weekday::Saturday || w == Weekday::Sunday || ((d == 1 || ((d == 2 || d == 3) && w == Weekday::Monday)) && m == 1) || s == e - 2 || s == e + 1 || ((d <= 7 && w == Weekday::Monday && m == 5 && y != 1995 && y != 2020) || (d == 8 && m == 5 && (y == 1995 || y == 2020)) || (d >= 25 && w == Weekday::Monday && m == 5 && y != 2002 && y != 2012 && y != 2022) || ((d == 3 || d == 4) && m == 6 && y == 2002) || ((d == 4 || d == 5) && m == 6 && y == 2012) || ((d == 2 || d == 3) && m == 6 && y == 2022) || (d >= 25 && w == Weekday::Monday && m == 8) || (d == 29 && m == 4 && y == 2011) || (d == 19 && m == 9 && y == 2022) || (d == 8 && m == 5 && y == 2023)) || ((d == 25 || (d == 27 && (w == Weekday::Monday || w == Weekday::Tuesday))) && m == 12) || ((d == 26 || (d == 28 && (w == Weekday::Monday || w == Weekday::Tuesday))) && m == 12) || (d == 31 && m == 12 && y == 1999))
        }),
{
    lemma_easter_offset(s, -3);
    lemma_easter_offset(s, 0);
}

/// The London stock exchange calendar: a day is a business day exactly when it is neither a Saturday
/// nor a Sunday nor New Year's Day (on the Monday after when it falls on a weekend), Good
/// Friday (two days before Easter Sunday), Easter Monday, a bank holiday (the first and last Mondays of May, moved for V.E. day
/// and the jubilees, the last Monday of August, and the one-off royal holidays), Christmas or
/// Boxing Day (moved on past a weekend), nor December 31st, 1999.
pub proof fn lemma_uk_exchange_holidays(s: int)
    requires
        is_valid_serial(s),
    ensures
        ({
            let w = weekday_of_serial(s);
            let d = day_of_serial(s);
            let m = month_of_serial(s);
            let y = year_of_serial(s);
            let e = easter_sunday_serial(y);
            (UnitedKingdomExchange { weekend: Weekend::WesternWeekend(WesternWeekend {}) }).is_business_day_spec(s)
                == !(w == Weekday::Saturday || w == Weekday::Sunday || ((d == 1 || ((d == 2 || d == 3) && w == Weekday::Monday)) && m == 1) || s == e - 2 || s == e + 1 || ((d <= 7 && w == Weekday::Monday && m == 5 && y != 1995 && y != 2020) || (d == 8 && m == 5 && (y == 1995 || y == 2020)) || (d >= 25 && w == Weekday::Monday && m == 5 && y != 2002 && y != 2012 && y != 2022) || ((d == 3 || d == 4) && m == 6 && y == 2002) || ((d == 4 || d == 5) && m == 6 && y == 2012) || ((d == 2 || d == 3) && m == 6 && y == 2022) || (d >= 25 && w == Weekday::Monday && m == 8) || (d == 29 && m == 4 && y == 2011) || (d == 19 && m == 9 && y == 2022) || (d == 8 && m == 5 && y == 2023)) || ((d == 25 || (d == 27 && (w == Weekday::Monday || w == Weekday::Tuesday))) && m == 12) || ((d == 26 || (d == 28 && (w == Weekday::Monday || w == Weekday::Tuesday))) && m == 12) || (d == 31 && m == 12 && y == 1999))
        }),
{
    lemma_easter_offset(s, -3);
    lemma_easter_offset(s, 0);
}

/// The London metals exchange calendar: a day is a business day exactly when it is neither a Saturday
/// nor a Sunday nor New Year's Day (on the Monday after when it falls on a weekend), Good
/// Friday (two days before Easter Sunday), Easter Monday, a bank holiday (the first and last Mondays of May, moved for V.E. day
/// and the jubilees, the last Monday of August, and the one-off royal holidays), Christmas or
/// Boxing Day (moved on past a weekend), nor December 31st, 1999.
pub proof fn lemma_uk_metals_holidays(s: int)
    requires
        is_valid_serial(s),
    ensures
        ({
            let w = weekday_of_serial(s);
            let d = day_of_serial(s);
            let m = month_of_serial(s);
            let y = year_of_serial(s);
            let e = easter_sunday_serial(y);
            (UnitedKingdomMetals { weekend: Weekend::WesternWeekend(WesternWeekend {}) }).is_business_day_spec(s)
                == !(w == Weekday::Saturday || w == Weekday::Sunday || ((d == 1 || ((d == 2 || d == 3) && w == Weekday::Monday)) && m == 1) || s == e - 2 || s == e + 1 || ((d <= 7 && w == Weekday::Monday && m == 5 && y != 1995 && y != 2020) || (d == 8 && m == 5 && (y == 1995 || y == 2020)) || (d >= 25 && w == Weekday::Monday && m == 5 && y != 2002 && y != 2012 && y != 2022) || ((d == 3 || d == 4) && m == 6 && y == 2002) || ((d == 4 || d == 5) && m == 6 && y == 2012) || ((d == 2 || d == 3) && m == 6 && y == 2022) || (d >= 25 && w == Weekday::Monday && m == 8) || (d == 29 && m == 4 && y == 2011) || (d == 19 && m == 9 && y == 2022) || (d == 8 && m == 5 && y == 2023)) || ((d == 25 || (d == 27 && (w == Weekday::Monday || w == Weekday::Tuesday))) && m == 12) || ((d == 26 || (d == 28 && (w == Weekday::Monday || w == Weekday::Tuesday))) && m == 12) || (d == 31 && m == 12 && y == 1999))
        }),
{
    lemma_easter_offset(s, -3);
    lemma_easter_offset(s, 0);
}

} // verus!
