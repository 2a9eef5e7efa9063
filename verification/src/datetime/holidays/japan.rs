use vstd::prelude::*;

use crate::datetime::calendar::Calendar;
use crate::datetime::date::{day_of_serial, month_of_serial, weekday_of_serial, year_of_serial, Date};
use crate::datetime::holiday::Holiday;
use crate::datetime::months::Month;
use crate::datetime::weekday::Weekday;
use crate::datetime::weekend::{Weekend, WesternWeekend};
use crate::datetime::{Day, Year};

verus! {

/// Division rounding toward zero.
pub open spec fn trunc_div(a: int, b: int) -> int {
    if a >= 0 {
        a / b
    } else {
        -((-a) / b)
    }
}

/// The leap-year correction of the equinox formula for year `y`.
pub open spec fn equinox_leap_correction(y: int) -> int {
    trunc_div(y - 2000, 4) + trunc_div(y - 2000, 100) - trunc_div(y - 2000, 400)
}

/// Day of March of the vernal equinox in year `y`: the integer part of
/// `20.69115 + 0.242194 * (y - 2000) - correction`, here in millionths of a day.
pub open spec fn vernal_equinox_day(y: int) -> int {
    (EXACT_VERNAL_EQUINOX_TIME + DIFF_PER_YEAR * (y - 2000) - MICRO_DAYS_PER_DAY
        * equinox_leap_correction(y)) / (MICRO_DAYS_PER_DAY as int)
}

/// Day of September of the autumnal equinox in year `y`: the integer part of
/// `23.09 + 0.242194 * (y - 2000) - correction`, here in millionths of a day.
pub open spec fn autumnal_equinox_day(y: int) -> int {
    (EXACT_AUTUMNAL_EQUINOX_TIME + DIFF_PER_YEAR * (y - 2000) - MICRO_DAYS_PER_DAY
        * equinox_leap_correction(y)) / (MICRO_DAYS_PER_DAY as int)
}

/// Japanese calendar.
///
/// Holidays: weekends, New Year's bank holidays (January 1st-3rd), Coming of Age Day,
/// National Foundation Day, the Emperor's Birthday, the vernal and autumnal equinoxes,
/// Greenery Day, Constitution Memorial Day, Holiday for a Nation, Children's Day, Marine
/// Day, Mountain Day, Respect for the Aged Day, Health and Sports Day, National Culture
/// Day, Labor Thanksgiving Day, December 31st, and a few one-shot holidays.
#[derive(Clone, Copy, Debug)]
pub struct Japan {
    pub weekend: Weekend,
}

impl Japan {
    /// The Japanese calendar.
    #[allow(clippy::new_ret_no_self)]
    pub fn new() -> (r: Calendar)
        ensures
            r.holiday == Holiday::Japan(Japan { weekend: Weekend::WesternWeekend(WesternWeekend {}) }),
    {
        Calendar::new(Holiday::Japan(Japan { weekend: Weekend::WesternWeekend(WesternWeekend {}) }))
    }

    pub fn name(&self) -> (r: String)
        ensures
            r@ == "Japan"@,
    {
        "Japan".to_owned()
    }

    /// Whether the date with serial number `s` is a business day.
    pub open spec fn is_business_day_spec(self, s: int) -> bool {
        let w = weekday_of_serial(s);
        let d = day_of_serial(s);
        let m = month_of_serial(s);
        let y = year_of_serial(s);
        let ve = vernal_equinox_day(y);
        let ae = autumnal_equinox_day(y);
        !(self.weekend.spec_is_weekend(w)
        // New Year's Day
        || (d == 1  && m == 1)
        // Bank Holiday
        || (d == 2  && m == 1)
        // Bank Holiday
        || (d == 3  && m == 1)
        // Coming of Age Day (2nd Monday in January),
        // was January 15th until 2000
        || (w == Weekday::Monday && (8 <= d <= 14) && m == 1
            && y >= 2000)
        || ((d == 15 || (d == 16 && w == Weekday::Monday)) && m == 1
            && y < 2000)
        // National Foundation Day
        || ((d == 11 || (d == 12 && w == Weekday::Monday)) && m == 2)
        // Emperor's Birthday (Emperor Naruhito)
        || ((d == 23 || (d == 24 && w == Weekday::Monday)) && m == 2
            && y >= 2020)
        // Emperor's Birthday (Emperor Akihito)
        || ((d == 23 || (d == 24 && w == Weekday::Monday)) && m == 12
            && (1989 <= y < 2019))
        // Vernal Equinox
        || ((d == ve || (d == ve+1 && w == Weekday::Monday)) && m == 3)
        // Greenery Day
        || ((d == 29 || (d == 30 && w == Weekday::Monday)) && m == 4)
        // Constitution Memorial Day
        || (d == 3  && m == 5)
        // Holiday for a Nation
        || (d == 4  && m == 5)
        // Children's Day
        || (d == 5  && m == 5)
        // any of the three above observed later if on Saturday or Sunday
        || (d == 6 && m == 5
            && (w == Weekday::Monday || w == Weekday::Tuesday || w == Weekday::Wednesday))
        // Marine Day (3rd Monday in July),
        // was July 20th until 2003, not a holiday before 1996,
        // July 23rd in 2020 due to Olympics games
        // July 22nd in 2021 due to Olympics games
        || (w == Weekday::Monday && (15 <= d <= 21) && m == 7
            && ((2003 <= y < 2020) || y >= 2022))
        || ((d == 20 || (d == 21 && w == Weekday::Monday)) && m == 7
            && (1996 <= y < 2003))
        || (d == 23 && m == 7 && y == 2020)
        || (d == 22 && m == 7 && y == 2021)
        // Mountain Day
        // (moved in 2020 due to Olympics games)
        // (moved in 2021 due to Olympics games)
        || ((d == 11 || (d == 12 && w == Weekday::Monday)) && m == 8
            && ((2016 <= y < 2020) || y >= 2022))
        || (d == 10 && m == 8 && y == 2020)
        || (d == 9 && m == 8 && y == 2021)
        // Respect for the Aged Day (3rd Monday in September),
        // was September 15th until 2003
        || (w == Weekday::Monday && (15 <= d <= 21) && m == 9
            && y >= 2003)
        || ((d == 15 || (d == 16 && w == Weekday::Monday)) && m == 9
            && y < 2003)
        // If a single day falls between Respect for the Aged Day
        // and the Autumnal Equinox, it is holiday
        || (w == Weekday::Tuesday && d+1 == ae && (16 <= d <= 22)
            && m == 9 && y >= 2003)
        // Autumnal Equinox
        || ((d == ae || (d == ae+1 && w == Weekday::Monday)) && m == 9)
        // Health and Sports Day (2nd Monday in October),
        // was October 10th until 2000,
        // July 24th in 2020 due to Olympics games
        // July 23rd in 2021 due to Olympics games
        || (w == Weekday::Monday && (8 <= d <= 14) && m == 10
            && ((2000 <= y < 2020) || y >= 2022))
        || ((d == 10 || (d == 11 && w == Weekday::Monday)) && m == 10
            && y < 2000)
        || (d == 24 && m == 7 && y == 2020)
        || (d == 23 && m == 7 && y == 2021)
        // National Culture Day
        || ((d == 3  || (d == 4 && w == Weekday::Monday)) && m == 11)
        // Labor Thanksgiving Day
        || ((d == 23 || (d == 24 && w == Weekday::Monday)) && m == 11)
        // Bank Holiday
        || (d == 31 && m == 12)
        // one-shot holidays
        // Marriage of Prince Akihito
        || (d == 10 && m == 4 && y == 1959)
        // Rites of Imperial Funeral
        || (d == 24 && m == 2 && y == 1989)
        // Enthronement Ceremony (Emperor Akihito)
        || (d == 12 && m == 11 && y == 1990)
        // Marriage of Prince Naruhito
        || (d == 9 && m == 6 && y == 1993)
        // Special holiday based on Japanese public holidays law
        || (d == 30 && m == 4 && y == 2019)
        // Enthronement Day (Emperor Naruhito)
        || (d == 1 && m == 5 && y == 2019)
        // Special holiday based on Japanese public holidays law
        || (d == 2 && m == 5 && y == 2019)
        // Enthronement Ceremony (Emperor Naruhito)
        || (d == 22 && m == 10 && y == 2019))
    }

    pub fn is_business_day(&self, date: &Date) -> (r: bool)
        ensures
            r == self.is_business_day_spec(date@),
    {
        let w = date.weekday();
        let d = date.day_of_month();
        let m = date.month();
        let y = date.year();

        // equinox calculation
        let ve = vernal_equinox(y);
        let ae = autumnal_equinox(y);

        if (self.is_weekend(w)
        // New Year's Day
        || (d == 1  && m == Month::January)
        // Bank Holiday
        || (d == 2  && m == Month::January)
        // Bank Holiday
        || (d == 3  && m == Month::January)
        // Coming of Age Day (2nd Monday in January),
        // was January 15th until 2000
        || (w == Weekday::Monday && (8 <= d && d <= 14) && m == Month::January
            && y >= 2000)
        || ((d == 15 || (d == 16 && w == Weekday::Monday)) && m == Month::January
            && y < 2000)
        // National Foundation Day
        || ((d == 11 || (d == 12 && w == Weekday::Monday)) && m == Month::February)
        // Emperor's Birthday (Emperor Naruhito)
        || ((d == 23 || (d == 24 && w == Weekday::Monday)) && m == Month::February
            && y >= 2020)
        // Emperor's Birthday (Emperor Akihito)
        || ((d == 23 || (d == 24 && w == Weekday::Monday)) && m == Month::December
            && (1989 <= y && y < 2019))
        // Vernal Equinox
        || ((d == ve || (d == ve+1 && w == Weekday::Monday)) && m == Month::March)
        // Greenery Day
        || ((d == 29 || (d == 30 && w == Weekday::Monday)) && m == Month::April)
        // Constitution Memorial Day
        || (d == 3  && m == Month::May)
        // Holiday for a Nation
        || (d == 4  && m == Month::May)
        // Children's Day
        || (d == 5  && m == Month::May)
        // any of the three above observed later if on Saturday or Sunday
        || (d == 6 && m == Month::May
            && (w == Weekday::Monday || w == Weekday::Tuesday || w == Weekday::Wednesday))
        // Marine Day (3rd Monday in July),
        // was July 20th until 2003, not a holiday before 1996,
        // July 23rd in 2020 due to Olympics games
        // July 22nd in 2021 due to Olympics games
        || (w == Weekday::Monday && (15 <= d && d <= 21) && m == Month::July
            && ((2003 <= y && y < 2020) || y >= 2022))
        || ((d == 20 || (d == 21 && w == Weekday::Monday)) && m == Month::July
            && (1996 <= y && y < 2003))
        || (d == 23 && m == Month::July && y == 2020)
        || (d == 22 && m == Month::July && y == 2021)
        // Mountain Day
        // (moved in 2020 due to Olympics games)
        // (moved in 2021 due to Olympics games)
        || ((d == 11 || (d == 12 && w == Weekday::Monday)) && m == Month::August
            && ((2016 <= y && y < 2020) || y >= 2022))
        || (d == 10 && m == Month::August && y == 2020)
        || (d == 9 && m == Month::August && y == 2021)
        // Respect for the Aged Day (3rd Monday in September),
        // was September 15th until 2003
        || (w == Weekday::Monday && (15 <= d && d <= 21) && m == Month::September
            && y >= 2003)
        || ((d == 15 || (d == 16 && w == Weekday::Monday)) && m == Month::September
            && y < 2003)
        // If a single day falls between Respect for the Aged Day
        // and the Autumnal Equinox, it is holiday
        || (w == Weekday::Tuesday && d+1 == ae && (16 <= d && d <= 22)
            && m == Month::September && y >= 2003)
        // Autumnal Equinox
        || ((d == ae || (d == ae+1 && w == Weekday::Monday)) && m == Month::September)
        // Health and Sports Day (2nd Monday in October),
        // was October 10th until 2000,
        // July 24th in 2020 due to Olympics games
        // July 23rd in 2021 due to Olympics games
        || (w == Weekday::Monday && (8 <= d && d <= 14) && m == Month::October
            && ((2000 <= y && y < 2020) || y >= 2022))
        || ((d == 10 || (d == 11 && w == Weekday::Monday)) && m == Month::October
            && y < 2000)
        || (d == 24 && m == Month::July && y == 2020)
        || (d == 23 && m == Month::July && y == 2021)
        // National Culture Day
        || ((d == 3  || (d == 4 && w == Weekday::Monday)) && m == Month::November)
        // Labor Thanksgiving Day
        || ((d == 23 || (d == 24 && w == Weekday::Monday)) && m == Month::November)
        // Bank Holiday
        || (d == 31 && m == Month::December)
        // one-shot holidays
        // Marriage of Prince Akihito
        || (d == 10 && m == Month::April && y == 1959)
        // Rites of Imperial Funeral
        || (d == 24 && m == Month::February && y == 1989)
        // Enthronement Ceremony (Emperor Akihito)
        || (d == 12 && m == Month::November && y == 1990)
        // Marriage of Prince Naruhito
        || (d == 9 && m == Month::June && y == 1993)
        // Special holiday based on Japanese public holidays law
        || (d == 30 && m == Month::April && y == 2019)
        // Enthronement Day (Emperor Naruhito)
        || (d == 1 && m == Month::May && y == 2019)
        // Special holiday based on Japanese public holidays law
        || (d == 2 && m == Month::May && y == 2019)
        // Enthronement Ceremony (Emperor Naruhito)
        || (d == 22 && m == Month::October && y == 2019))
        {
            return false;
        }

        true
    }

    pub fn is_weekend(&self, weekday: Weekday) -> (r: bool)
        ensures
            r == self.weekend.spec_is_weekend(weekday),
    {
        self.weekend.is_weekend(weekday)
    }
}

/// Division of `a` by a positive `b`, rounding toward zero.
fn truncating_div(a: i64, b: i64) -> (r: i64)
    requires
        0 < b,
        -1000000 <= a <= 1000000,
    ensures
        r == trunc_div(a as int, b as int),
{
    if a >= 0 {
        ((a as u64) / (b as u64)) as i64
    } else {
        -((((-a) as u64) / (b as u64)) as i64)
    }
}

fn equinox_day(exact_time: i64, y: Year) -> (r: Day)
    requires
        1900 <= y < 2200,
        exact_time == EXACT_VERNAL_EQUINOX_TIME || exact_time == EXACT_AUTUMNAL_EQUINOX_TIME,
    ensures
        r == (exact_time + DIFF_PER_YEAR * (y - 2000) - MICRO_DAYS_PER_DAY
            * equinox_leap_correction(y as int)) / (MICRO_DAYS_PER_DAY as int),
{
    let k = (y - 2000) as i64;
    let number_of_leap_years = truncating_div(k, 4) + truncating_div(k, 100) - truncating_div(k, 400);
    let moving_amount = k * DIFF_PER_YEAR;
    let t = exact_time + moving_amount - MICRO_DAYS_PER_DAY * number_of_leap_years;
    ((t as u64) / (MICRO_DAYS_PER_DAY as u64)) as u32
}

fn vernal_equinox(y: Year) -> (r: Day)
    requires
        1900 <= y < 2200,
    ensures
        r == vernal_equinox_day(y as int),
{
    equinox_day(EXACT_VERNAL_EQUINOX_TIME, y)
}

fn autumnal_equinox(y: Year) -> (r: Day)
    requires
        1900 <= y < 2200,
    ensures
        r == autumnal_equinox_day(y as int),
{
    equinox_day(EXACT_AUTUMNAL_EQUINOX_TIME, y)
}

/// Millionths of a day in a day.
pub const MICRO_DAYS_PER_DAY: i64 = 1000000;

/// Time of the vernal equinox in March 2000, in millionths of a day (20.69115 days).
pub const EXACT_VERNAL_EQUINOX_TIME: i64 = 20691150;

/// Time of the autumnal equinox in September 2000, in millionths of a day (23.09 days).
pub const EXACT_AUTUMNAL_EQUINOX_TIME: i64 = 23090000;

/// Yearly drift of the equinoxes, in millionths of a day (0.242194 days).
pub const DIFF_PER_YEAR: i64 = 242194;


/// The vernal equinox falls on day `floor(20.69115 + 0.242194 * (y - 2000) - c)` of March and
/// the autumnal equinox on day `floor(23.09 + 0.242194 * (y - 2000) - c)` of September, where
/// `c` is the number of leap-year corrections since 2000 (a quarter, less a hundredth, plus a
/// four-hundredth of the years, each rounded toward zero).
pub proof fn lemma_equinox_days(y: int)
    ensures
        ({
            let c = trunc_div(y - 2000, 4) + trunc_div(y - 2000, 100) - trunc_div(y - 2000, 400);
            let v = 20691150 + 242194 * (y - 2000) - 1000000 * c;
            let a = 23090000 + 242194 * (y - 2000) - 1000000 * c;
            &&& vernal_equinox_day(y) * 1000000 <= v < vernal_equinox_day(y) * 1000000 + 1000000
            &&& autumnal_equinox_day(y) * 1000000 <= a < autumnal_equinox_day(y) * 1000000
                + 1000000
        }),
{
    let c = trunc_div(y - 2000, 4) + trunc_div(y - 2000, 100) - trunc_div(y - 2000, 400);
    let v = 20691150 + 242194 * (y - 2000) - 1000000 * c;
    let a = 23090000 + 242194 * (y - 2000) - 1000000 * c;
    vstd::arithmetic::div_mod::lemma_fundamental_div_mod(v, 1000000);
    vstd::arithmetic::div_mod::lemma_fundamental_div_mod(a, 1000000);
}

/// The Japanese calendar: a day is a business day exactly when it is neither a Saturday nor a
/// Sunday nor one of the national holidays listed with the calendar (with the equinoxes of
/// [lemma_equinox_days] and their Monday substitutes).
pub proof fn lemma_japan_holidays(s: int)
    ensures
        ({
            let w = weekday_of_serial(s);
            let d = day_of_serial(s);
            let m = month_of_serial(s);
            let y = year_of_serial(s);
            (Japan { weekend: Weekend::WesternWeekend(WesternWeekend {}) }).is_business_day_spec(s) == !(w == Weekday::Saturday || w == Weekday::Sunday
        || (d == 1  && m == 1)
        || (d == 2  && m == 1)
        || (d == 3  && m == 1)
        || (w == Weekday::Monday && (8 <= d <= 14) && m == 1
            && y >= 2000)
        || ((d == 15 || (d == 16 && w == Weekday::Monday)) && m == 1
            && y < 2000)
        || ((d == 11 || (d == 12 && w == Weekday::Monday)) && m == 2)
        || ((d == 23 || (d == 24 && w == Weekday::Monday)) && m == 2
            && y >= 2020)
        || ((d == 23 || (d == 24 && w == Weekday::Monday)) && m == 12
            && (1989 <= y < 2019))
        || ((d == vernal_equinox_day(y) || (d == vernal_equinox_day(y)+1 && w == Weekday::Monday)) && m == 3)
        || ((d == 29 || (d == 30 && w == Weekday::Monday)) && m == 4)
        || (d == 3  && m == 5)
        || (d == 4  && m == 5)
        || (d == 5  && m == 5)
        || (d == 6 && m == 5
            && (w == Weekday::Monday || w == Weekday::Tuesday || w == Weekday::Wednesday))
        || (w == Weekday::Monday && (15 <= d <= 21) && m == 7
            && ((2003 <= y < 2020) || y >= 2022))
        || ((d == 20 || (d == 21 && w == Weekday::Monday)) && m == 7
            && (1996 <= y < 2003))
        || (d == 23 && m == 7 && y == 2020)
        || (d == 22 && m == 7 && y == 2021)
        || ((d == 11 || (d == 12 && w == Weekday::Monday)) && m == 8
            && ((2016 <= y < 2020) || y >= 2022))
        || (d == 10 && m == 8 && y == 2020)
        || (d == 9 && m == 8 && y == 2021)
        || (w == Weekday::Monday && (15 <= d <= 21) && m == 9
            && y >= 2003)
        || ((d == 15 || (d == 16 && w == Weekday::Monday)) && m == 9
            && y < 2003)
        || (w == Weekday::Tuesday && d+1 == autumnal_equinox_day(y) && (16 <= d <= 22)
            && m == 9 && y >= 2003)
        || ((d == autumnal_equinox_day(y) || (d == autumnal_equinox_day(y)+1 && w == Weekday::Monday)) && m == 9)
        || (w == Weekday::Monday && (8 <= d <= 14) && m == 10
            && ((2000 <= y < 2020) || y >= 2022))
        || ((d == 10 || (d == 11 && w == Weekday::Monday)) && m == 10
            && y < 2000)
        || (d == 24 && m == 7 && y == 2020)
        || (d == 23 && m == 7 && y == 2021)
        || ((d == 3  || (d == 4 && w == Weekday::Monday)) && m == 11)
        || ((d == 23 || (d == 24 && w == Weekday::Monday)) && m == 11)
        || (d == 31 && m == 12)
        || (d == 10 && m == 4 && y == 1959)
        || (d == 24 && m == 2 && y == 1989)
        || (d == 12 && m == 11 && y == 1990)
        || (d == 9 && m == 6 && y == 1993)
        || (d == 30 && m == 4 && y == 2019)
        || (d == 1 && m == 5 && y == 2019)
        || (d == 2 && m == 5 && y == 2019)
        || (d == 22 && m == 10 && y == 2019))
        }),
{
}

} // verus!
