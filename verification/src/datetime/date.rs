use vstd::prelude::*;

use chrono::{Datelike, Duration, TimeZone, Utc};

use crate::datetime::months::Month;
use crate::datetime::period::Period;
use crate::datetime::timeunit::TimeUnit;
use crate::datetime::weekday::Weekday;
use crate::datetime::{Day, SerialNumber, Year};

verus! {

// ------------------------------------------------------------------------------------------------
// The proleptic Gregorian calendar, counted in days from January 1st, 1900.
// ------------------------------------------------------------------------------------------------

/// Smallest serial number: January 1st, 1900.
pub const MINIMUM_SERIAL_NUMBER: SerialNumber = 2;

/// Largest serial number: December 31st, 2199.
pub const MAXIMUM_SERIAL_NUMBER: SerialNumber = 109574;

/// Gregorian leap years: divisible by 4, except centuries not divisible by 400.
/// In particular 1900 and 2100 are not leap years, 2000 is.
pub open spec fn is_leap_year(y: int) -> bool {
    (y % 4 == 0 && y % 100 != 0) || y % 400 == 0
}

/// Number of days in month `m` (1 to 12).
pub open spec fn month_days(m: int, leap: bool) -> int {
    if m == 2 {
        if leap {
            29
        } else {
            28
        }
    } else if m == 4 || m == 6 || m == 9 || m == 11 {
        30
    } else {
        31
    }
}

/// Number of days of the year before the first day of month `m` (1 to 13).
pub open spec fn days_before_month(m: int, leap: bool) -> int {
    let l: int = if leap {
        1
    } else {
        0
    };
    if m <= 1 {
        0
    } else if m == 2 {
        31
    } else if m == 3 {
        59 + l
    } else if m == 4 {
        90 + l
    } else if m == 5 {
        120 + l
    } else if m == 6 {
        151 + l
    } else if m == 7 {
        181 + l
    } else if m == 8 {
        212 + l
    } else if m == 9 {
        243 + l
    } else if m == 10 {
        273 + l
    } else if m == 11 {
        304 + l
    } else if m == 12 {
        334 + l
    } else {
        365 + l
    }
}

/// Number of leap years before year `y` (counted from year 1).
pub open spec fn leap_years_before(y: int) -> int {
    (y - 1) / 4 - (y - 1) / 100 + (y - 1) / 400
}

/// Number of days from January 1st, 1900 to January 1st of year `y`.
pub open spec fn days_before_year(y: int) -> int {
    365 * (y - 1900) + leap_years_before(y) - leap_years_before(1900)
}

/// A valid day `d` of month `m` of year `y`.
pub open spec fn is_valid_ymd(y: int, m: int, d: int) -> bool {
    1 <= m <= 12 && 1 <= d <= month_days(m, is_leap_year(y))
}

/// Number of days from January 1st, 1900 to the given day.
pub open spec fn day_number(y: int, m: int, d: int) -> int {
    days_before_year(y) + days_before_month(m, is_leap_year(y)) + d - 1
}

/// Serial number of the given day: January 1st, 1900 is 2.
pub open spec fn serial_of(y: int, m: int, d: int) -> int {
    day_number(y, m, d) + 2
}

/// Day of the year of the given day, January 1st being 1.
pub open spec fn day_of_year_of(y: int, m: int, d: int) -> int {
    days_before_month(m, is_leap_year(y)) + d
}

/// Serial numbers of the dates that a [Date] can hold.
pub open spec fn is_valid_serial(s: int) -> bool {
    MINIMUM_SERIAL_NUMBER <= s <= MAXIMUM_SERIAL_NUMBER
}

/// The day after the given one, as (year, month, day).
pub open spec fn next_ymd(y: int, m: int, d: int) -> (int, int, int) {
    if d < month_days(m, is_leap_year(y)) {
        (y, m, d + 1)
    } else if m < 12 {
        (y, m + 1, 1)
    } else {
        (y + 1, 1, 1)
    }
}

/// The (year, month, day) of the date with serial number `s`.
pub open spec fn ymd_of_serial(s: int) -> (int, int, int) {
    choose|t: (int, int, int)| is_valid_ymd(t.0, t.1, t.2) && serial_of(t.0, t.1, t.2) == s
}

/// Year of the date with serial number `s`.
pub open spec fn year_of_serial(s: int) -> int {
    ymd_of_serial(s).0
}

/// Month number (1 to 12) of the date with serial number `s`.
pub open spec fn month_of_serial(s: int) -> int {
    ymd_of_serial(s).1
}

/// Day of month of the date with serial number `s`.
pub open spec fn day_of_serial(s: int) -> int {
    ymd_of_serial(s).2
}

/// Day of year of the date with serial number `s`.
pub open spec fn day_of_year_of_serial(s: int) -> int {
    let t = ymd_of_serial(s);
    day_of_year_of(t.0, t.1, t.2)
}

/// Weekday of the date with serial number `s` (January 1st, 1900 was a Monday).
pub open spec fn weekday_of_serial(s: int) -> Weekday {
    Weekday::from_number(s)
}

// ------------------------------------------------------------------------------------------------
// Lemmas on the calendar arithmetic
// ------------------------------------------------------------------------------------------------

proof fn lemma_div_step_4(y: int)
    ensures
        y / 4 - (y - 1) / 4 == (if y % 4 == 0 {
            1int
        } else {
            0int
        }),
{
    vstd::arithmetic::div_mod::lemma_fundamental_div_mod(y, 4);
    vstd::arithmetic::div_mod::lemma_fundamental_div_mod(y - 1, 4);
}

proof fn lemma_div_step_100(y: int)
    ensures
        y / 100 - (y - 1) / 100 == (if y % 100 == 0 {
            1int
        } else {
            0int
        }),
{
    vstd::arithmetic::div_mod::lemma_fundamental_div_mod(y, 100);
    vstd::arithmetic::div_mod::lemma_fundamental_div_mod(y - 1, 100);
}

proof fn lemma_div_step_400(y: int)
    ensures
        y / 400 - (y - 1) / 400 == (if y % 400 == 0 {
            1int
        } else {
            0int
        }),
{
    vstd::arithmetic::div_mod::lemma_fundamental_div_mod(y, 400);
    vstd::arithmetic::div_mod::lemma_fundamental_div_mod(y - 1, 400);
}

proof fn lemma_leap_step(y: int)
    ensures
        leap_years_before(y + 1) - leap_years_before(y) == (if is_leap_year(y) {
            1int
        } else {
            0int
        }),
{
    lemma_div_step_4(y);
    lemma_div_step_100(y);
    lemma_div_step_400(y);
    vstd::arithmetic::div_mod::lemma_fundamental_div_mod(y, 400);
    vstd::arithmetic::div_mod::lemma_fundamental_div_mod(y, 100);
    vstd::arithmetic::div_mod::lemma_fundamental_div_mod(y, 4);
    assert(y % 400 == 0 ==> y % 100 == 0 && y % 4 == 0);
    assert(y % 100 == 0 ==> y % 4 == 0);
}

/// A year has 365 days, or 366 in a leap year.
pub proof fn lemma_year_length(y: int)
    ensures
        days_before_year(y + 1) == days_before_year(y) + days_before_month(13, is_leap_year(y)),
{
    lemma_leap_step(y);
}

/// January 1st comes later in later years.
pub proof fn lemma_days_before_year_monotone(y1: int, y2: int)
    requires
        y1 < y2,
    ensures
        days_before_year(y1 + 1) <= days_before_year(y2),
        days_before_year(y1) < days_before_year(y2),
    decreases y2 - y1,
{
    lemma_year_length(y1);
    if y1 + 1 < y2 {
        lemma_days_before_year_monotone(y1 + 1, y2);
    }
}

proof fn lemma_month_offsets(m: int, leap: bool)
    requires
        1 <= m <= 12,
    ensures
        days_before_month(m + 1, leap) == days_before_month(m, leap) + month_days(m, leap),
        0 <= days_before_month(m, leap),
{
}

/// The day number of a day lies within the days of its year.
pub proof fn lemma_day_number_in_year(y: int, m: int, d: int)
    requires
        is_valid_ymd(y, m, d),
    ensures
        days_before_year(y) <= day_number(y, m, d) < days_before_year(y + 1),
        1 <= day_of_year_of(y, m, d) <= days_before_month(13, is_leap_year(y)),
{
    lemma_year_length(y);
    let leap = is_leap_year(y);
    assert(days_before_month(m, leap) + month_days(m, leap) <= days_before_month(13, leap));
}

/// Different valid days have different day numbers.
pub proof fn lemma_day_number_injective(y1: int, m1: int, d1: int, y2: int, m2: int, d2: int)
    requires
        is_valid_ymd(y1, m1, d1),
        is_valid_ymd(y2, m2, d2),
        day_number(y1, m1, d1) == day_number(y2, m2, d2),
    ensures
        y1 == y2 && m1 == m2 && d1 == d2,
{
    lemma_day_number_in_year(y1, m1, d1);
    lemma_day_number_in_year(y2, m2, d2);
    if y1 < y2 {
        lemma_days_before_year_monotone(y1, y2);
    } else if y2 < y1 {
        lemma_days_before_year_monotone(y2, y1);
    }
    assert(y1 == y2);
}

/// Days are ordered by their day numbers as they are by (year, month, day).
pub proof fn lemma_day_number_order(y1: int, m1: int, d1: int, y2: int, m2: int, d2: int)
    requires
        is_valid_ymd(y1, m1, d1),
        is_valid_ymd(y2, m2, d2),
    ensures
        (day_number(y1, m1, d1) < day_number(y2, m2, d2)) <==> (y1 < y2 || (y1 == y2 && m1 < m2)
            || (y1 == y2 && m1 == m2 && d1 < d2)),
{
    lemma_day_number_in_year(y1, m1, d1);
    lemma_day_number_in_year(y2, m2, d2);
    if y1 < y2 {
        lemma_days_before_year_monotone(y1, y2);
    } else if y2 < y1 {
        lemma_days_before_year_monotone(y2, y1);
    }
}

/// The day after a valid day is valid and its day number is one more.
pub proof fn lemma_next_day(y: int, m: int, d: int)
    requires
        is_valid_ymd(y, m, d),
    ensures
        is_valid_ymd(next_ymd(y, m, d).0, next_ymd(y, m, d).1, next_ymd(y, m, d).2),
        day_number(next_ymd(y, m, d).0, next_ymd(y, m, d).1, next_ymd(y, m, d).2) == day_number(
            y,
            m,
            d,
        ) + 1,
{
    lemma_year_length(y);
    lemma_month_offsets(m, is_leap_year(y));
}

proof fn lemma_known_serials()
    ensures
        serial_of(1900, 1, 1) == MINIMUM_SERIAL_NUMBER,
        serial_of(2199, 12, 31) == MAXIMUM_SERIAL_NUMBER,
        days_before_year(1900) == 0,
        days_before_year(2200) == MAXIMUM_SERIAL_NUMBER - 1,
        !is_leap_year(2199),
{
}

/// Every serial number in range names a valid day between 1900 and 2199.
pub proof fn lemma_serial_has_date(s: int)
    requires
        is_valid_serial(s),
    ensures
        is_valid_ymd(ymd_of_serial(s).0, ymd_of_serial(s).1, ymd_of_serial(s).2),
        serial_of(ymd_of_serial(s).0, ymd_of_serial(s).1, ymd_of_serial(s).2) == s,
        1900 <= ymd_of_serial(s).0 < 2200,
    decreases s,
{
    lemma_known_serials();
    let t = if s == MINIMUM_SERIAL_NUMBER {
        (1900int, 1int, 1int)
    } else {
        lemma_serial_has_date(s - 1);
        let p = ymd_of_serial(s - 1);
        lemma_next_day(p.0, p.1, p.2);
        next_ymd(p.0, p.1, p.2)
    };
    assert(is_valid_ymd(t.0, t.1, t.2) && serial_of(t.0, t.1, t.2) == s);
    lemma_serial_year_range(t.0, t.1, t.2);
}

/// The valid day with a serial number in range lies between 1900 and 2199.
pub proof fn lemma_serial_year_range(y: int, m: int, d: int)
    requires
        is_valid_ymd(y, m, d),
        is_valid_serial(serial_of(y, m, d)),
    ensures
        1900 <= y < 2200,
        is_valid_ymd(ymd_of_serial(serial_of(y, m, d)).0, ymd_of_serial(serial_of(y, m, d)).1, ymd_of_serial(serial_of(y, m, d)).2),
        ymd_of_serial(serial_of(y, m, d)) == (y, m, d),
{
    lemma_known_serials();
    lemma_day_number_in_year(y, m, d);
    if y < 1900 {
        lemma_days_before_year_monotone(y, 1900);
    }
    if y >= 2200 {
        if y > 2200 {
            lemma_days_before_year_monotone(2200, y);
        }
    }
    let w: (int, int, int) = (y, m, d);
    assert(is_valid_ymd(w.0, w.1, w.2) && serial_of(w.0, w.1, w.2) == serial_of(y, m, d));
    let t = ymd_of_serial(serial_of(y, m, d));
    lemma_day_number_injective(t.0, t.1, t.2, y, m, d);
}

/// Serial numbers count days: the date after the one with serial number `s` has serial
/// number `s + 1`.  Its day of year is one more, or 1 on January 1st, and its weekday is the
/// next one, Sunday following Saturday.
pub proof fn lemma_consecutive_serials(s: int)
    requires
        is_valid_serial(s),
        is_valid_serial(s + 1),
    ensures
        ymd_of_serial(s + 1) == next_ymd(ymd_of_serial(s).0, ymd_of_serial(s).1, ymd_of_serial(s).2),
        day_of_year_of_serial(s + 1) == (if ymd_of_serial(s + 1).0 == ymd_of_serial(s).0 {
            day_of_year_of_serial(s) + 1
        } else {
            1
        }),
        weekday_of_serial(s + 1).number() == (if weekday_of_serial(s).number() == 7 {
            1
        } else {
            weekday_of_serial(s).number() + 1
        }),
{
    lemma_serial_has_date(s);
    let t = ymd_of_serial(s);
    lemma_next_day(t.0, t.1, t.2);
    let n = next_ymd(t.0, t.1, t.2);
    lemma_serial_year_range(n.0, n.1, n.2);
    lemma_month_offsets(t.1, is_leap_year(t.0));
    vstd::arithmetic::div_mod::lemma_fundamental_div_mod(s, 7);
    vstd::arithmetic::div_mod::lemma_fundamental_div_mod(s + 1, 7);
}

/// A date built from (year, month, day) gives back that year, month and day: the
/// serial number of a valid day between 1900 and 2199 is in range and names that day.
pub proof fn lemma_serial_roundtrip(y: int, m: int, d: int)
    requires
        is_valid_ymd(y, m, d),
        1900 <= y < 2200,
    ensures
        is_valid_serial(serial_of(y, m, d)),
        ymd_of_serial(serial_of(y, m, d)) == (y, m, d),
{
    lemma_known_serials();
    lemma_day_number_in_year(y, m, d);
    if y < 2199 {
        lemma_days_before_year_monotone(y + 1, 2200);
    }
    lemma_serial_year_range(y, m, d);
}

// ------------------------------------------------------------------------------------------------
// Date
// ------------------------------------------------------------------------------------------------

/// A calendar date between January 1st, 1900 and December 31st, 2199.
///
/// A date is identified by its serial number, the way spreadsheets store dates:
/// 1900-01-01 has serial number 2 and 2008-01-01 has serial number 39448.
/// The year, month, day of month and day of year are kept beside it.
#[derive(Clone, Copy, Debug, PartialEq, Eq, Structural, Hash, Ord)]
pub struct Date {
    serial_number: SerialNumber,
    year: Year,
    month: Month,
    day: Day,
    day_of_year: Day,
}

impl View for Date {
    type V = int;

    closed spec fn view(&self) -> int {
        self.serial_number as int
    }
}

impl Date {
    #[verifier::type_invariant]
    closed spec fn inv(self) -> bool {
        &&& is_valid_ymd(self.year as int, self.month.number(), self.day as int)
        &&& 1900 <= self.year < 2200
        &&& self.serial_number == serial_of(self.year as int, self.month.number(), self.day as int)
        &&& self.day_of_year == day_of_year_of(self.year as int, self.month.number(), self.day as int)
        &&& is_valid_serial(self.serial_number as int)
    }

    proof fn lemma_fields(self)
        requires
            self.inv(),
        ensures
            is_valid_serial(self@),
            ymd_of_serial(self@) == (self.year as int, self.month.number(), self.day as int),
            day_of_year_of_serial(self@) == self.day_of_year,
    {
        lemma_serial_year_range(self.year as int, self.month.number(), self.day as int);
    }

    /// Build a date from its fields once they are known to be consistent.
    fn from_parts(y: Year, m: Month, d: Day, doy: Day, serial: SerialNumber) -> (r: Date)
        requires
            is_valid_ymd(y as int, m.number(), d as int),
            1900 <= y < 2200,
            serial == serial_of(y as int, m.number(), d as int),
            doy == day_of_year_of(y as int, m.number(), d as int),
        ensures
            r@ == serial,
            ymd_of_serial(r@) == (y as int, m.number(), d as int),
            is_valid_serial(r@),
    {
        proof {
            lemma_known_serials();
            lemma_day_number_in_year(y as int, m.number(), d as int);
            if y < 2199 {
                lemma_days_before_year_monotone(y as int + 1, 2200);
            }
            lemma_serial_year_range(y as int, m.number(), d as int);
        }
        Date { serial_number: serial, year: y, month: m, day: d, day_of_year: doy }
    }
}


/// The (year, month) reached from month `m` of year `y` after `n` months, as
/// (year, month number).
pub open spec fn add_months_ym(y: int, m: int, n: int) -> (int, int) {
    (y + (m - 1 + n) / 12, (m - 1 + n) % 12 + 1)
}

/// Whether a date with serial number `s` can be moved by `n` units without leaving the
/// range of dates; only days, weeks, months and years are accepted.
pub open spec fn can_advance(s: int, n: int, unit: TimeUnit) -> bool {
    let t = ymd_of_serial(s);
    match unit {
        TimeUnit::Days => is_valid_serial(s + n),
        TimeUnit::Weeks => is_valid_serial(s + 7 * n),
        TimeUnit::Months => 1900 <= add_months_ym(t.0, t.1, n).0 < 2200,
        TimeUnit::Years => 1900 <= t.0 + n < 2200,
        _ => false,
    }
}

/// Serial number of the date `n` units after (or before, for negative `n`) the date with
/// serial number `s`.  Moving by months or years keeps the day of month where the target
/// month has it, and takes the last day of the target month otherwise.
pub open spec fn advanced_serial(s: int, n: int, unit: TimeUnit) -> int {
    let t = ymd_of_serial(s);
    match unit {
        TimeUnit::Days => s + n,
        TimeUnit::Weeks => s + 7 * n,
        TimeUnit::Months => {
            let ym = add_months_ym(t.0, t.1, n);
            let len = month_days(ym.1, is_leap_year(ym.0));
            serial_of(ym.0, ym.1, if t.2 > len { len } else { t.2 })
        },
        _ => {
            let y = t.0 + n;
            serial_of(y, t.1, if t.2 == 29 && t.1 == 2 && !is_leap_year(y) { 28 } else { t.2 })
        },
    }
}

/// The day of month of the `nth` weekday `dow` in month `m` of year `y`.
pub open spec fn nth_weekday_day(nth: int, dow: Weekday, m: int, y: int) -> int {
    let first = weekday_of_serial(serial_of(y, m, 1)).number();
    let skip = if dow.number() >= first {
        nth - 1
    } else {
        nth
    };
    1 + dow.number() + skip * 7 - first
}

/// chrono's `Utc.with_ymd_and_hms(year, month, day, 0, 0, 0)` followed by adding
/// `Duration::days(days)`; the year, month, day and ordinal (day of year) of the result are
/// read back with chrono's `Datelike`.
/// Claimed of chrono: the result is the valid proleptic Gregorian day that lies `days` days
/// after the given one, and its ordinal counts the days of its year from 1.
#[verifier::external_body]
fn shift_civil_date(year: i32, month: u32, day: u32, days: i64) -> (r: (i32, u32, u32, u32))
    requires
        is_valid_ymd(year as int, month as int, day as int),
        1900 <= year < 2200,
        -200000 <= days <= 200000,
    ensures
        is_valid_ymd(r.0 as int, r.1 as int, r.2 as int),
        day_number(r.0 as int, r.1 as int, r.2 as int) == day_number(
            year as int,
            month as int,
            day as int,
        ) + days,
        r.3 == day_of_year_of(r.0 as int, r.1 as int, r.2 as int),
{
    let start = Utc.with_ymd_and_hms(year, month, day, 0, 0, 0).unwrap();
    let shifted = start + Duration::days(days);
    (shifted.year(), shifted.month(), shifted.day(), shifted.ordinal())
}

impl Date {
    /// Create a new [Date] from day, [Month] and year.
    pub fn new(d: Day, m: Month, y: Year) -> (r: Date)
        requires
            1900 <= y < 2200,
            1 <= d <= month_days(m.number(), is_leap_year(y as int)),
        ensures
            r@ == serial_of(y as int, m.number(), d as int),
            ymd_of_serial(r@) == (y as int, m.number(), d as int),
    {
        let leap = Date::is_leap(y);
        let len = Date::month_length(m, leap);
        let month_offset = Date::month_offset(m, leap);
        let year_offset = Date::year_offset(y);
        let serial_number = 1 + d + month_offset + year_offset;
        Date::from_parts(y, m, d, month_offset + d, serial_number as i32)
    }

    /// Create a [Date] taking a serial number as given by Applix or Excel.
    pub fn from_serial(serial_number: SerialNumber) -> (r: Date)
        requires
            is_valid_serial(serial_number as int),
        ensures
            r@ == serial_number,
    {
        let (y, m, d, doy) = shift_civil_date(1900, 1, 1, (serial_number - 2) as i64);
        proof {
            lemma_known_serials();
            lemma_serial_year_range(y as int, m as int, d as int);
        }
        let month = Month::from_natural(m);
        Date::from_parts(y, month, d, doy, serial_number)
    }

    /// The serial number of the date.
    pub fn serial_number(&self) -> (r: SerialNumber)
        ensures
            r == self@,
            is_valid_serial(r as int),
    {
        proof {
            use_type_invariant(self);
        }
        self.serial_number
    }

    /// The day of the week.
    pub fn weekday(&self) -> (r: Weekday)
        ensures
            r == weekday_of_serial(self@),
            is_valid_serial(self@),
    {
        proof {
            use_type_invariant(self);
        }
        let w = (self.serial_number as u32) % 7;
        Weekday::from_integer(w as i32)
    }

    /// The day of the month.
    pub fn day_of_month(&self) -> (r: Day)
        ensures
            r == day_of_serial(self@),
            is_valid_serial(self@),
            1 <= r <= 31,
    {
        proof {
            use_type_invariant(self);
            self.lemma_fields();
        }
        self.day
    }

    /// The day of the year, January 1st being 1.
    pub fn day_of_year(&self) -> (r: Day)
        ensures
            r == day_of_year_of_serial(self@),
            is_valid_serial(self@),
            1 <= r <= 366,
    {
        proof {
            use_type_invariant(self);
            self.lemma_fields();
            lemma_day_number_in_year(self.year as int, self.month.number(), self.day as int);
        }
        self.day_of_year
    }

    /// The month.
    pub fn month(&self) -> (r: Month)
        ensures
            r.number() == month_of_serial(self@),
            is_valid_serial(self@),
    {
        proof {
            use_type_invariant(self);
            self.lemma_fields();
        }
        self.month
    }

    /// The year.
    pub fn year(&self) -> (r: Year)
        ensures
            r == year_of_serial(self@),
            is_valid_serial(self@),
            1900 <= r < 2200,
    {
        proof {
            use_type_invariant(self);
            self.lemma_fields();
        }
        self.year
    }

    /// The last day of the month of this date.
    pub fn end_of_month(&self) -> (r: Self)
        ensures
            ymd_of_serial(r@) == (year_of_serial(self@), month_of_serial(self@), month_days(
                month_of_serial(self@),
                is_leap_year(year_of_serial(self@)),
            )),
    {
        let m = self.month();
        let y = self.year();
        let d = Date::month_length(m, Date::is_leap(y));
        Date::new(d, m, y)
    }

    /// Whether the date is the last day of its month.
    pub fn is_end_of_month(&self) -> (r: bool)
        ensures
            r == (day_of_serial(self@) == month_days(
                month_of_serial(self@),
                is_leap_year(year_of_serial(self@)),
            )),
    {
        let leap = Date::is_leap(self.year());
        self.day_of_month() == Date::month_length(self.month(), leap)
    }

    /// January 1st, 1900.
    pub fn min_date() -> (r: Self)
        ensures
            r@ == MINIMUM_SERIAL_NUMBER,
            ymd_of_serial(r@) == (1900int, 1int, 1int),
    {
        proof {
            lemma_known_serials();
        }
        Date::new(1, Month::January, 1900)
    }

    /// December 31st, 2199.
    pub fn max_date() -> (r: Self)
        ensures
            r@ == MAXIMUM_SERIAL_NUMBER,
            ymd_of_serial(r@) == (2199int, 12int, 31int),
    {
        proof {
            lemma_known_serials();
        }
        Date::new(31, Month::December, 2199)
    }

    /// n-th given weekday in the given month and year
    /// E.g., the 4th Thursday of March, 1998 was March 26th, 1998.
    ///
    /// see <http://www.cpearson.com/excel/DateTimeWS.htm>
    pub fn nth_weekday(nth: usize, day_of_week: Weekday, m: Month, y: Year) -> (r: Date)
        requires
            0 < nth < 6,
            1900 <= y < 2200,
            nth_weekday_day(nth as int, day_of_week, m.number(), y as int) <= month_days(
                m.number(),
                is_leap_year(y as int),
            ),
        ensures
            r@ == serial_of(y as int, m.number(), nth_weekday_day(
                nth as int,
                day_of_week,
                m.number(),
                y as int,
            )),
            ymd_of_serial(r@) == (y as int, m.number(), nth_weekday_day(
                nth as int,
                day_of_week,
                m.number(),
                y as int,
            )),
            weekday_of_serial(r@) == day_of_week,
            (day_of_serial(r@) - 1) / 7 == nth - 1,
    {
        let first = Date::new(1, m, y).weekday();
        let first_n = first.to_integer();
        let dow_n = day_of_week.to_integer();
        let skip: i32 = if dow_n >= first_n {
            nth as i32 - 1
        } else {
            nth as i32
        };
        let d = (1 + dow_n + skip * 7) - first_n;
        let r = Date::new(d as u32, m, y);
        proof {
            let s1 = serial_of(y as int, m.number(), 1);
            lemma_weekday_shift(s1, day_of_week, skip as int);
            assert(r@ == s1 + d - 1);
        }
        r
    }

    /// Whether the year is a leap year (1900 and 2100 are not, 2000 is).
    pub fn is_leap(y: Year) -> (r: bool)
        requires
            1900 <= y < 2200,
        ensures
            r == is_leap_year(y as int),
    {
        (y % 4 == 0 && y % 100 != 0) || y % 400 == 0
    }

    fn month_length(m: Month, leap_year: bool) -> (r: Day)
        ensures
            r == month_days(m.number(), leap_year),
    {
        match m {
            Month::February => if leap_year {
                29
            } else {
                28
            },
            Month::April | Month::June | Month::September | Month::November => 30,
            _ => 31,
        }
    }

    fn month_offset(m: Month, leap_year: bool) -> (r: Day)
        ensures
            r == days_before_month(m.number(), leap_year),
    {
        let l: u32 = if leap_year {
            1
        } else {
            0
        };
        match m {
            Month::January => 0,
            Month::February => 31,
            Month::March => 59 + l,
            Month::April => 90 + l,
            Month::May => 120 + l,
            Month::June => 151 + l,
            Month::July => 181 + l,
            Month::August => 212 + l,
            Month::September => 243 + l,
            Month::October => 273 + l,
            Month::November => 304 + l,
            Month::December => 334 + l,
        }
    }

    fn year_offset(y: Year) -> (r: u32)
        requires
            1900 <= y < 2200,
        ensures
            r == days_before_year(y as int),
            r <= 109208,
    {
        let yy = (y - 1) as u32;
        let leaps = yy / 4 - yy / 100 + yy / 400;
        365 * ((y - 1900) as u32) + leaps - 460
    }

    /// Advance the date by the given amount of time units; only days, weeks, months and
    /// years are accepted.
    pub fn advance(&self, n: i32, unit: TimeUnit) -> (r: Date)
        requires
            can_advance(self@, n as int, unit),
        ensures
            r@ == advanced_serial(self@, n as int, unit),
    {
        proof {
            use_type_invariant(self);
            self.lemma_fields();
        }
        match unit {
            TimeUnit::Days => Date::from_serial(self.serial_number + n),
            TimeUnit::Weeks => Date::from_serial(self.serial_number + 7 * n),
            TimeUnit::Months => {
                let mut d = self.day;
                let m0 = self.month.to_integer();
                let y0 = self.year;
                let mut m: i32 = m0 + n;
                let mut y = y0;
                let ghost target = add_months_ym(y0 as int, m0 as int, n as int);
                proof {
                    vstd::arithmetic::div_mod::lemma_fundamental_div_mod(m0 - 1 + n, 12);
                    assert(12 * target.0 + target.1 - 1 == m0 - 1 + n + 12 * y0);
                    assert(1 <= target.1 <= 12);
                }
                while m > 12
                    invariant
                        m + 12 * y == 12 * target.0 + target.1,
                        1 <= target.1 <= 12,
                        1900 <= target.0 < 2200,
                        m <= 12 || y < target.0,
                        m > 12 ==> y < target.0,
                        m >= 1 ==> y <= target.0,
                        m < 1 ==> y == y0,
                        y >= y0,
                        1900 <= y0 < 2200,
                    decreases m,
                {
                    m = m - 12;
                    y = y + 1;
                }
                while m < 1
                    invariant
                        m + 12 * y == 12 * target.0 + target.1,
                        1 <= target.1 <= 12,
                        1900 <= target.0 < 2200,
                        m <= 12,
                        m < 1 ==> y > target.0,
                        y >= target.0,
                        y < 2200,
                    decreases y - target.0,
                {
                    m = m + 12;
                    y = y - 1;
                }
                assert(y == target.0 && m == target.1);
                let month = Month::from_integer(m);
                let length = Date::month_length(month, Date::is_leap(y));
                if d > length {
                    d = length;
                }
                Date::new(d, month, y)
            },
            _ => {
                let mut d = self.day;
                let m = self.month;
                let y = self.year + n;
                if d == 29 && m == Month::February && !Date::is_leap(y) {
                    d = 28;
                }
                Date::new(d, m, y)
            },
        }
    }

    /// Whether the date can be moved by `n` units without leaving the range of dates (only
    /// days, weeks, months and years are accepted).
    pub fn can_advance_by(&self, n: i32, unit: TimeUnit) -> (r: bool)
        ensures
            r == can_advance(self@, n as int, unit),
    {
        proof {
            use_type_invariant(self);
            self.lemma_fields();
        }
        match unit {
            TimeUnit::Days => {
                let s = self.serial_number as i64 + n as i64;
                MINIMUM_SERIAL_NUMBER as i64 <= s && s <= MAXIMUM_SERIAL_NUMBER as i64
            },
            TimeUnit::Weeks => {
                let s = self.serial_number as i64 + 7 * (n as i64);
                MINIMUM_SERIAL_NUMBER as i64 <= s && s <= MAXIMUM_SERIAL_NUMBER as i64
            },
            TimeUnit::Months => {
                let k = self.month.to_integer() as i64 - 1 + n as i64;
                let q = if k >= 0 {
                    k / 12
                } else {
                    -((-k + 11) / 12)
                };
                proof {
                    vstd::arithmetic::div_mod::lemma_fundamental_div_mod(k as int, 12);
                }
                let y = self.year as i64 + q;
                1900 <= y && y < 2200
            },
            TimeUnit::Years => {
                let y = self.year as i64 + n as i64;
                1900 <= y && y < 2200
            },
            _ => false,
        }
    }

    /// The date `n` days later (earlier for negative `n`).
    pub fn add_days(&self, n: SerialNumber) -> (r: Date)
        requires
            is_valid_serial(self@ + n),
        ensures
            r@ == self@ + n,
    {
        Date::from_serial(self.serial_number() + n)
    }

    /// The date `n` days earlier (later for negative `n`).
    pub fn sub_days(&self, n: SerialNumber) -> (r: Date)
        requires
            is_valid_serial(self@ - n),
        ensures
            r@ == self@ - n,
    {
        Date::from_serial(self.serial_number() - n)
    }

    /// Move this date `n` days later (earlier for negative `n`).
    pub fn add_assign_days(&mut self, n: SerialNumber)
        requires
            is_valid_serial(old(self)@ + n),
        ensures
            final(self)@ == old(self)@ + n,
    {
        *self = self.add_days(n);
    }

    /// Move this date `n` days earlier (later for negative `n`).
    pub fn sub_assign_days(&mut self, n: SerialNumber)
        requires
            is_valid_serial(old(self)@ - n),
        ensures
            final(self)@ == old(self)@ - n,
    {
        *self = self.sub_days(n);
    }

    /// The date one period later.
    pub fn add_period(&self, p: &Period) -> (r: Date)
        requires
            can_advance(self@, p.length as int, p.unit),
        ensures
            r@ == advanced_serial(self@, p.length as int, p.unit),
    {
        self.advance(p.length, p.unit)
    }

    /// The date one period earlier.
    pub fn sub_period(&self, p: &Period) -> (r: Date)
        requires
            p.length > i32::MIN,
            can_advance(self@, -p.length, p.unit),
        ensures
            r@ == advanced_serial(self@, -p.length, p.unit),
    {
        self.advance(-p.length, p.unit)
    }

    /// Move this date one period later.
    pub fn add_assign_period(&mut self, p: &Period)
        requires
            can_advance(old(self)@, p.length as int, p.unit),
        ensures
            final(self)@ == advanced_serial(old(self)@, p.length as int, p.unit),
    {
        *self = self.advance(p.length, p.unit);
    }

    /// Move this date one period earlier.
    pub fn sub_assign_period(&mut self, p: &Period)
        requires
            p.length > i32::MIN,
            can_advance(old(self)@, -p.length, p.unit),
        ensures
            final(self)@ == advanced_serial(old(self)@, -p.length, p.unit),
    {
        *self = self.advance(-p.length, p.unit);
    }

    /// Number of days from `rhs` to this date (negative when `rhs` is later).
    pub fn difference(&self, rhs: &Date) -> (r: SerialNumber)
        ensures
            r == self@ - rhs@,
    {
        self.serial_number() - rhs.serial_number()
    }
}

/// Moving a serial number by `w.number() - first + 7 * k` days from a day whose weekday
/// number is `first` lands on weekday `w`.
pub proof fn lemma_weekday_shift(s1: int, w: Weekday, k: int)
    ensures
        weekday_of_serial(s1 + w.number() - weekday_of_serial(s1).number() + 7 * k) == w,
{
    vstd::arithmetic::div_mod::lemma_fundamental_div_mod(s1, 7);
    let q: int = if s1 % 7 == 0 {
        s1 / 7 - 1
    } else {
        s1 / 7
    };
    assert(s1 - weekday_of_serial(s1).number() == 7 * q);
    let x = s1 + w.number() - weekday_of_serial(s1).number() + 7 * k;
    assert(x == 7 * (q + k) + w.number());
    vstd::arithmetic::div_mod::lemma_mod_multiples_vanish(q + k, w.number(), 7);
}

impl Default for Date {
    /// January 1st, 1900: the null date.
    fn default() -> (r: Self)
        ensures
            r@ == MINIMUM_SERIAL_NUMBER,
    {
        Date::min_date()
    }
}

} // verus!
