use vstd::prelude::*;

use crate::datetime::date::{
    day_of_year_of_serial, days_before_month, is_leap_year, is_valid_serial, lemma_serial_has_date,
    serial_of, year_of_serial, Date,
};
use crate::datetime::holidays::brazil::{BrazilExchange, BrazilSettlement};
use crate::datetime::holidays::italy::{ItalyExchange, ItalySettlement};
use crate::datetime::holidays::japan::Japan;
use crate::datetime::holidays::nilholiday::NilHoliday;
use crate::datetime::holidays::switzerland::Switzerland;
use crate::datetime::holidays::target::Target;
use crate::datetime::holidays::unitedkingdom::{
    UnitedKingdomExchange, UnitedKingdomMetals, UnitedKingdomSettlement,
};
use crate::datetime::holidays::weekendsonly::WeekendsOnly;
use crate::datetime::weekday::Weekday;
use crate::datetime::{Day, Year};

verus! {

/// Easter Sunday of year `y` in the Gregorian calendar, as (month, day), by the anonymous
/// Gregorian computus (Meeus/Jones/Butcher).
pub open spec fn easter_sunday(y: int) -> (int, int) {
    let a = y % 19;
    let b = y / 100;
    let c = y % 100;
    let d = b / 4;
    let e = b % 4;
    let f = (b + 8) / 25;
    let g = (b - f + 1) / 3;
    let h = (19 * a + b - d - g + 15) % 30;
    let i = c / 4;
    let k = c % 4;
    let l = (32 + 2 * e + 2 * i - h - k) % 7;
    let m = (a + 11 * h + 22 * l) / 451;
    let n = h + l - 7 * m + 114;
    (n / 31, n % 31 + 1)
}

/// Serial number of Easter Sunday of year `y`.
pub open spec fn easter_sunday_serial(y: int) -> int {
    serial_of(y, easter_sunday(y).0, easter_sunday(y).1)
}

/// A date lies `k` days after Easter Monday of its year, counted in days of the year, exactly
/// when it lies `k + 1` days after Easter Sunday.
pub proof fn lemma_easter_offset(s: int, k: int)
    requires
        is_valid_serial(s),
    ensures
        (day_of_year_of_serial(s) == easter_monday_of(year_of_serial(s)) + k) == (s
            == easter_sunday_serial(year_of_serial(s)) + 1 + k),
{
    lemma_serial_has_date(s);
}

/// Day of the year of Easter Monday in year `y`.
pub open spec fn easter_monday_of(y: int) -> int {
    let t = easter_sunday(y);
    days_before_month(t.0, is_leap_year(y)) + t.1 + 1
}

/// Day of the year of Easter Monday in year `y`.
pub fn easter_monday(y: Year) -> (r: Day)
    requires
        1900 <= y < 2200,
    ensures
        r == easter_monday_of(y as int),
        60 <= r <= 153,
{
    let yy = y as u32;
    let a = yy % 19;
    let b = yy / 100;
    let c = yy % 100;
    let d = b / 4;
    let e = b % 4;
    let f = (b + 8) / 25;
    let g = (b - f + 1) / 3;
    let h = (19 * a + b - d - g + 15) % 30;
    let i = c / 4;
    let k = c % 4;
    let l = (32 + 2 * e + 2 * i - h - k) % 7;
    let m = (a + 11 * h + 22 * l) / 451;
    let n = h + l - 7 * m + 114;
    let month = n / 31;
    let day = n % 31 + 1;
    let leap = Date::is_leap(y);
    let offset: u32 = if month == 3 {
        if leap {
            60
        } else {
            59
        }
    } else {
        if leap {
            91
        } else {
            90
        }
    };
    offset + day + 1
}

/// The holiday rules of the calendars.
#[derive(Clone, Copy, Debug)]
pub enum Holiday {
    Target(Target),
    Switzerland(Switzerland),
    BrazilSettlement(BrazilSettlement),
    BrazilExchange(BrazilExchange),
    UnitedKingdomSettlement(UnitedKingdomSettlement),
    UnitedKingdomExchange(UnitedKingdomExchange),
    UnitedKingdomMetals(UnitedKingdomMetals),
    ItalySettlement(ItalySettlement),
    ItalyExchange(ItalyExchange),
    Japan(Japan),
    NilHoliday(NilHoliday),
    WeekendsOnly(WeekendsOnly),
}

impl Holiday {
    /// Whether the date with serial number `s` is a business day under these rules.
    pub open spec fn is_business_day_spec(self, s: int) -> bool {
        match self {
            Holiday::Target(h) => h.is_business_day_spec(s),
            Holiday::Switzerland(h) => h.is_business_day_spec(s),
            Holiday::BrazilSettlement(h) => h.is_business_day_spec(s),
            Holiday::BrazilExchange(h) => h.is_business_day_spec(s),
            Holiday::UnitedKingdomSettlement(h) => h.is_business_day_spec(s),
            Holiday::UnitedKingdomExchange(h) => h.is_business_day_spec(s),
            Holiday::UnitedKingdomMetals(h) => h.is_business_day_spec(s),
            Holiday::ItalySettlement(h) => h.is_business_day_spec(s),
            Holiday::ItalyExchange(h) => h.is_business_day_spec(s),
            Holiday::Japan(h) => h.is_business_day_spec(s),
            Holiday::NilHoliday(h) => h.is_business_day_spec(s),
            Holiday::WeekendsOnly(h) => h.is_business_day_spec(s),
        }
    }

    /// Whether the weekday is a weekend day under these rules.
    pub open spec fn is_weekend_spec(self, weekday: Weekday) -> bool {
        match self {
            Holiday::Target(h) => h.weekend.spec_is_weekend(weekday),
            Holiday::Switzerland(h) => h.weekend.spec_is_weekend(weekday),
            Holiday::BrazilSettlement(h) => h.weekend.spec_is_weekend(weekday),
            Holiday::BrazilExchange(h) => h.weekend.spec_is_weekend(weekday),
            Holiday::UnitedKingdomSettlement(h) => h.weekend.spec_is_weekend(weekday),
            Holiday::UnitedKingdomExchange(h) => h.weekend.spec_is_weekend(weekday),
            Holiday::UnitedKingdomMetals(h) => h.weekend.spec_is_weekend(weekday),
            Holiday::ItalySettlement(h) => h.weekend.spec_is_weekend(weekday),
            Holiday::ItalyExchange(h) => h.weekend.spec_is_weekend(weekday),
            Holiday::Japan(h) => h.weekend.spec_is_weekend(weekday),
            Holiday::NilHoliday(h) => h.weekend.spec_is_weekend(weekday),
            Holiday::WeekendsOnly(h) => h.weekend.spec_is_weekend(weekday),
        }
    }

    /// The name of the calendar.
    pub open spec fn name_spec(self) -> Seq<char> {
        match self {
            Holiday::Target(_) => "TARGET"@,
            Holiday::Switzerland(_) => "Switzerland"@,
            Holiday::BrazilSettlement(_) => "Brazil"@,
            Holiday::BrazilExchange(_) => "BOVESPA"@,
            Holiday::UnitedKingdomSettlement(_) => "UK settlement"@,
            Holiday::UnitedKingdomExchange(_) => "London stock exchange"@,
            Holiday::UnitedKingdomMetals(_) => "London metals exchange"@,
            Holiday::ItalySettlement(_) => "Italian settlement"@,
            Holiday::ItalyExchange(_) => "Milan stock exchange"@,
            Holiday::Japan(_) => "Japan"@,
            Holiday::NilHoliday(_) => "Null"@,
            Holiday::WeekendsOnly(_) => "weekends only"@,
        }
    }

    /// The name of the calendar.
    pub fn name(&self) -> (r: String)
        ensures
            r@ == self.name_spec(),
    {
        match self {
            Holiday::Target(h) => h.name(),
            Holiday::Switzerland(h) => h.name(),
            Holiday::BrazilSettlement(h) => h.name(),
            Holiday::BrazilExchange(h) => h.name(),
            Holiday::UnitedKingdomSettlement(h) => h.name(),
            Holiday::UnitedKingdomExchange(h) => h.name(),
            Holiday::UnitedKingdomMetals(h) => h.name(),
            Holiday::ItalySettlement(h) => h.name(),
            Holiday::ItalyExchange(h) => h.name(),
            Holiday::Japan(h) => h.name(),
            Holiday::NilHoliday(h) => h.name(),
            Holiday::WeekendsOnly(h) => h.name(),
        }
    }

    /// Whether the date is a business day under these rules.
    pub fn is_business_day(&self, date: &Date) -> (r: bool)
        ensures
            r == self.is_business_day_spec(date@),
    {
        match self {
            Holiday::Target(h) => h.is_business_day(date),
            Holiday::Switzerland(h) => h.is_business_day(date),
            Holiday::BrazilSettlement(h) => h.is_business_day(date),
            Holiday::BrazilExchange(h) => h.is_business_day(date),
            Holiday::UnitedKingdomSettlement(h) => h.is_business_day(date),
            Holiday::UnitedKingdomExchange(h) => h.is_business_day(date),
            Holiday::UnitedKingdomMetals(h) => h.is_business_day(date),
            Holiday::ItalySettlement(h) => h.is_business_day(date),
            Holiday::ItalyExchange(h) => h.is_business_day(date),
            Holiday::Japan(h) => h.is_business_day(date),
            Holiday::NilHoliday(h) => h.is_business_day(date),
            Holiday::WeekendsOnly(h) => h.is_business_day(date),
        }
    }

    /// Whether the weekday is a weekend day under these rules.
    pub fn is_weekend(&self, weekday: Weekday) -> (r: bool)
        ensures
            r == self.is_weekend_spec(weekday),
    {
        match self {
            Holiday::Target(h) => h.is_weekend(weekday),
            Holiday::Switzerland(h) => h.is_weekend(weekday),
            Holiday::BrazilSettlement(h) => h.is_weekend(weekday),
            Holiday::BrazilExchange(h) => h.is_weekend(weekday),
            Holiday::UnitedKingdomSettlement(h) => h.is_weekend(weekday),
            Holiday::UnitedKingdomExchange(h) => h.is_weekend(weekday),
            Holiday::UnitedKingdomMetals(h) => h.is_weekend(weekday),
            Holiday::ItalySettlement(h) => h.is_weekend(weekday),
            Holiday::ItalyExchange(h) => h.is_weekend(weekday),
            Holiday::Japan(h) => h.is_weekend(weekday),
            Holiday::NilHoliday(h) => h.is_weekend(weekday),
            Holiday::WeekendsOnly(h) => h.is_weekend(weekday),
        }
    }
}

} // verus!
