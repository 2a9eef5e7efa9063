use vstd::prelude::*;

use crate::datetime::date::{
    day_of_serial, is_leap_year, is_valid_serial, lemma_serial_has_date, month_days,
    month_of_serial, year_of_serial, ymd_of_serial, Date,
};
use crate::datetime::months::Month;
use crate::datetime::{Day, Year};

verus! {

/// 30/360 day count convention
///
/// The 30/360 day count can be calculated according to a number of conventions.
///
/// * US convention: if the starting date is the 31st of a month or the last day of February, it
///   becomes equal to the 30th of the same month.  If the ending date is the 31st of a month and
///   the starting date is the 30th or 31th of a month, the ending date becomes equal to the 30th.
///   If the ending date is the last of February and the starting date is also the last of February,
///   the ending date becomes equal to the 30th.
///   Also known as "30/360" or "360/360".
///
/// * Bond Basis convention: if the starting date is the 31st of a month, it becomes equal to the
///   30th of the same month. If the ending date is the 31st of a month and the starting date is
///   the 30th or 31th of a month, the ending date also becomes equal to the 30th of the month.
///   Also known as "US (ISMA)".
///
/// * European convention: starting dates or ending dates that occur on the 31st of a month become
///   equal to the 30th of the same month.
///   Also known as "30E/360", or "Eurobond Basis".
///
/// * Italian convention: starting dates or ending dates that occur on February and are greater
///   than 27 become equal to 30 for computational sake.
///
/// * ISDA convention: starting or ending dates on the 31st of the month become equal to 30;
///   starting dates or ending dates that occur on the last day of February also become equal to 30,
///   except for the termination date.  Also known as "30E/360
///   ISDA", "30/360 ISDA", or "30/360 German".
///
/// * NASD convention: if the starting date is the 31st of a month, it becomes equal to the 30th of
///   the same month. If the ending date is the 31st of a month and the starting date is earlier
///   than the 30th of a month, the ending date becomes equal to the 1st of the next month,
///   otherwise the ending date becomes equal to the 30th of the same month.
#[derive(Clone, Copy, Debug)]
pub struct Thirty360 {
    pub convention: Thiry360Convention,
}

/// The conventions of the 30/360 day count.
#[derive(Clone, Copy, Debug)]
pub enum Thiry360Convention {
    US(US),
    ISMA(ISMA),
    EU(EU),
    IT(IT),
    ISDA(ISDA),
    NASD(NASD),
}

/// Whether day `d` of month `m` of year `y` is the last day of February.
pub open spec fn is_last_of_february_spec(d: int, m: int, y: int) -> bool {
    m == 2 && d == 28 + (if is_leap_year(y) {
        1int
    } else {
        0int
    })
}

/// The 30/360 count for adjusted days: 360 days a year and 30 days a month.
pub open spec fn thirty360_count(y1: int, m1: int, d1: int, y2: int, m2: int, d2: int) -> int {
    360 * (y2 - y1) + 30 * (m2 - m1) + (d2 - d1)
}

/// 30/360 US day count between the dates with serial numbers `s1` and `s2`.
pub open spec fn us_day_count(s1: int, s2: int) -> int {
    let (y1, m1, d1) = ymd_of_serial(s1);
    let (y2, m2, d2) = ymd_of_serial(s2);
    let a1 = if d1 == 31 {
        30
    } else {
        d1
    };
    let a2 = if d2 == 31 && a1 >= 30 {
        30
    } else {
        d2
    };
    let b2 = if is_last_of_february_spec(a2, m2, y2) && is_last_of_february_spec(a1, m1, y1) {
        30
    } else {
        a2
    };
    let b1 = if is_last_of_february_spec(a1, m1, y1) {
        30
    } else {
        a1
    };
    thirty360_count(y1, m1, b1, y2, m2, b2)
}

/// 30/360 Bond Basis day count between the dates with serial numbers `s1` and `s2`.
pub open spec fn isma_day_count(s1: int, s2: int) -> int {
    let (y1, m1, d1) = ymd_of_serial(s1);
    let (y2, m2, d2) = ymd_of_serial(s2);
    let a1 = if d1 == 31 {
        30
    } else {
        d1
    };
    let a2 = if d2 == 31 && a1 == 30 {
        30
    } else {
        d2
    };
    thirty360_count(y1, m1, a1, y2, m2, a2)
}

/// 30E/360 day count between the dates with serial numbers `s1` and `s2`.
pub open spec fn eu_day_count(s1: int, s2: int) -> int {
    let (y1, m1, d1) = ymd_of_serial(s1);
    let (y2, m2, d2) = ymd_of_serial(s2);
    let a1 = if d1 == 31 {
        30
    } else {
        d1
    };
    let a2 = if d2 == 31 {
        30
    } else {
        d2
    };
    thirty360_count(y1, m1, a1, y2, m2, a2)
}

/// A day of month, the 31st counting as the 30th.
pub open spec fn capped_at_30(d: int) -> int {
    if d > 30 {
        30
    } else {
        d
    }
}

/// The 30E/360 day count: 360 days per year and 30 per month of difference, plus the
/// difference of the days of month, the 31st of either date counting as the 30th whatever
/// the other date is.
pub proof fn lemma_eu_day_count(s1: int, s2: int)
    requires
        is_valid_serial(s1),
        is_valid_serial(s2),
    ensures
        eu_day_count(s1, s2) == 360 * (year_of_serial(s2) - year_of_serial(s1)) + 30 * (
        month_of_serial(s2) - month_of_serial(s1)) + (capped_at_30(day_of_serial(s2))
            - capped_at_30(day_of_serial(s1))),
{
    lemma_serial_has_date(s1);
    lemma_serial_has_date(s2);
}

/// The 30/360 count of two dates whose days of month have been set to `e1` and `e2`.
pub open spec fn thirty360_between(s1: int, s2: int, e1: int, e2: int) -> int {
    360 * (year_of_serial(s2) - year_of_serial(s1)) + 30 * (month_of_serial(s2) - month_of_serial(
        s1,
    )) + (e2 - e1)
}

/// Whether the date with serial number `s` is the last day of its month.
pub open spec fn is_month_end(s: int) -> bool {
    day_of_serial(s) == month_days(month_of_serial(s), is_leap_year(year_of_serial(s)))
}

/// Whether the date with serial number `s` is the last day of February.
pub open spec fn is_end_of_february(s: int) -> bool {
    month_of_serial(s) == 2 && is_month_end(s)
}

/// The 30/360 Bond Basis day count: the 31st as first date counts as the 30th, and the 31st
/// as second date counts as the 30th when the first date is the 30th or 31st.
pub proof fn lemma_isma_day_count(s1: int, s2: int)
    requires
        is_valid_serial(s1),
        is_valid_serial(s2),
    ensures
        isma_day_count(s1, s2) == thirty360_between(
            s1,
            s2,
            capped_at_30(day_of_serial(s1)),
            if day_of_serial(s2) == 31 && day_of_serial(s1) >= 30 {
                30
            } else {
                day_of_serial(s2)
            },
        ),
{
    lemma_serial_has_date(s1);
    lemma_serial_has_date(s2);
}

/// The 30/360 US day count: a first date at the end of its month (the 31st, or the last
/// day of February) counts as the 30th; the 31st as second date counts as the 30th when the
/// first date is the 30th or 31st, and the last day of February as second date counts as the
/// 30th when the first date is the last day of February too.
pub proof fn lemma_us_day_count(s1: int, s2: int)
    requires
        is_valid_serial(s1),
        is_valid_serial(s2),
    ensures
        us_day_count(s1, s2) == thirty360_between(
            s1,
            s2,
            if day_of_serial(s1) == 31 || is_end_of_february(s1) {
                30
            } else {
                day_of_serial(s1)
            },
            if (day_of_serial(s2) == 31 && day_of_serial(s1) >= 30) || (is_end_of_february(s2)
                && is_end_of_february(s1)) {
                30
            } else {
                day_of_serial(s2)
            },
        ),
{
    lemma_serial_has_date(s1);
    lemma_serial_has_date(s2);
}

/// The 30/360 NASD day count: the 31st as first date counts as the 30th; the 31st as
/// second date counts as the 30th when the first date is the 30th or 31st, and as the 31st
/// otherwise.
pub proof fn lemma_nasd_day_count(s1: int, s2: int)
    requires
        is_valid_serial(s1),
        is_valid_serial(s2),
    ensures
        nasd_day_count(s1, s2) == thirty360_between(
            s1,
            s2,
            capped_at_30(day_of_serial(s1)),
            if day_of_serial(s2) == 31 && day_of_serial(s1) >= 30 {
                30
            } else {
                day_of_serial(s2)
            },
        ),
{
    lemma_serial_has_date(s1);
    lemma_serial_has_date(s2);
}

/// The 30/360 Italian day count: the 31st counts as the 30th, and so does any day of
/// February after the 27th, for either date.
pub proof fn lemma_it_day_count(s1: int, s2: int)
    requires
        is_valid_serial(s1),
        is_valid_serial(s2),
    ensures
        it_day_count(s1, s2) == thirty360_between(
            s1,
            s2,
            if day_of_serial(s1) == 31 || (month_of_serial(s1) == 2 && day_of_serial(s1) > 27) {
                30
            } else {
                day_of_serial(s1)
            },
            if day_of_serial(s2) == 31 || (month_of_serial(s2) == 2 && day_of_serial(s2) > 27) {
                30
            } else {
                day_of_serial(s2)
            },
        ),
{
    lemma_serial_has_date(s1);
    lemma_serial_has_date(s2);
}

/// The 30E/360 ISDA day count: a date at the end of its month counts as the 30th, except a
/// second date at the end of February that is the termination date.
pub proof fn lemma_isda_day_count(s1: int, s2: int, termination: int)
    requires
        is_valid_serial(s1),
        is_valid_serial(s2),
    ensures
        isda_day_count(s1, s2, termination) == thirty360_between(
            s1,
            s2,
            if is_month_end(s1) {
                30
            } else {
                day_of_serial(s1)
            },
            if is_month_end(s2) && !(s2 == termination && month_of_serial(s2) == 2) {
                30
            } else {
                day_of_serial(s2)
            },
        ),
{
    lemma_serial_has_date(s1);
    lemma_serial_has_date(s2);
}

/// 30/360 Italian day count between the dates with serial numbers `s1` and `s2`.
pub open spec fn it_day_count(s1: int, s2: int) -> int {
    let (y1, m1, d1) = ymd_of_serial(s1);
    let (y2, m2, d2) = ymd_of_serial(s2);
    let a1 = if d1 == 31 {
        30
    } else {
        d1
    };
    let a2 = if d2 == 31 {
        30
    } else {
        d2
    };
    let b1 = if m1 == 2 && a1 > 27 {
        30
    } else {
        a1
    };
    let b2 = if m2 == 2 && a2 > 27 {
        30
    } else {
        a2
    };
    thirty360_count(y1, m1, b1, y2, m2, b2)
}

/// 30E/360 ISDA day count between the dates with serial numbers `s1` and `s2`, when the
/// termination date has serial number `termination`.
pub open spec fn isda_day_count(s1: int, s2: int, termination: int) -> int {
    let (y1, m1, d1) = ymd_of_serial(s1);
    let (y2, m2, d2) = ymd_of_serial(s2);
    let a1 = if d1 == 31 {
        30
    } else {
        d1
    };
    let a2 = if d2 == 31 {
        30
    } else {
        d2
    };
    let b1 = if is_last_of_february_spec(a1, m1, y1) {
        30
    } else {
        a1
    };
    let b2 = if s2 != termination && is_last_of_february_spec(a2, m2, y2) {
        30
    } else {
        a2
    };
    thirty360_count(y1, m1, b1, y2, m2, b2)
}

/// 30/360 NASD day count between the dates with serial numbers `s1` and `s2`.
pub open spec fn nasd_day_count(s1: int, s2: int) -> int {
    let (y1, m1, d1) = ymd_of_serial(s1);
    let (y2, m2, d2) = ymd_of_serial(s2);
    let a1 = if d1 == 31 {
        30
    } else {
        d1
    };
    let a2 = if d2 == 31 && a1 >= 30 {
        30
    } else {
        d2
    };
    let (b2, n2) = if a2 == 31 && a1 < 30 {
        (1, m2 + 1)
    } else {
        (a2, m2)
    };
    thirty360_count(y1, m1, a1, y2, n2, b2)
}

impl Thirty360 {
    /// The day count of the convention between the dates with serial numbers `s1` and `s2`.
    pub open spec fn day_count_spec(self, s1: int, s2: int) -> int {
        match self.convention {
            Thiry360Convention::US(_) => us_day_count(s1, s2),
            Thiry360Convention::ISMA(_) => isma_day_count(s1, s2),
            Thiry360Convention::EU(_) => eu_day_count(s1, s2),
            Thiry360Convention::IT(_) => it_day_count(s1, s2),
            Thiry360Convention::ISDA(c) => isda_day_count(s1, s2, c.termination_date@),
            Thiry360Convention::NASD(_) => nasd_day_count(s1, s2),
        }
    }

    /// Return the name of the day counter
    /// The name of the convention.
    pub open spec fn name_spec(&self) -> Seq<char> {
        match self.convention {
            Thiry360Convention::US(_) => "30/360 (US)"@,
            Thiry360Convention::ISMA(_) => "30/360 (Bond Basis)"@,
            Thiry360Convention::EU(_) => "30E/360 (Eurobond Basis)"@,
            Thiry360Convention::IT(_) => "30/360 (Italian)"@,
            Thiry360Convention::ISDA(_) => "30E/360 (ISDA)"@,
            Thiry360Convention::NASD(_) => "30/360 (NASD)"@,
        }
    }

    pub fn name(&self) -> (r: String)
        ensures
            r@ == self.name_spec(),
    {
        match &self.convention {
            Thiry360Convention::US(c) => c.name(),
            Thiry360Convention::ISMA(c) => c.name(),
            Thiry360Convention::EU(c) => c.name(),
            Thiry360Convention::IT(c) => c.name(),
            Thiry360Convention::ISDA(c) => c.name(),
            Thiry360Convention::NASD(c) => c.name(),
        }
    }

    /// Returns the number of days between two dates.
    pub fn day_count(&self, d1: &Date, d2: &Date) -> (r: i32)
        ensures
            r == self.day_count_spec(d1@, d2@),
    {
        match &self.convention {
            Thiry360Convention::US(c) => c.day_count(d1, d2),
            Thiry360Convention::ISMA(c) => c.day_count(d1, d2),
            Thiry360Convention::EU(c) => c.day_count(d1, d2),
            Thiry360Convention::IT(c) => c.day_count(d1, d2),
            Thiry360Convention::ISDA(c) => c.day_count(d1, d2),
            Thiry360Convention::NASD(c) => c.day_count(d1, d2),
        }
    }
}

/// 30/360 US convention.
#[derive(Clone, Copy, Debug)]
pub struct US {}

impl US {
    pub fn name(&self) -> (r: String)
        ensures
            r@ == "30/360 (US)"@,
    {
        "30/360 (US)".to_owned()
    }

    /// Returns the number of days between two dates.
    pub fn day_count(&self, d1: &Date, d2: &Date) -> (r: i32)
        ensures
            r == us_day_count(d1@, d2@),
    {
        let mut dd1 = d1.day_of_month();
        let mut dd2 = d2.day_of_month();
        let mm1 = d1.month();
        let mm2 = d2.month();
        let yy1 = d1.year();
        let yy2 = d2.year();

        if dd1 == 31 {
            dd1 = 30;
        }
        if dd2 == 31 && dd1 >= 30 {
            dd2 = 30;
        }

        if is_last_of_february(dd2, mm2, yy2) && is_last_of_february(dd1, mm1, yy1) {
            dd2 = 30;
        }
        if is_last_of_february(dd1, mm1, yy1) {
            dd1 = 30;
        }

        360 * (yy2 - yy1) + 30 * (mm2.to_integer() - mm1.to_integer()) + (dd2 as i32 - dd1 as i32)
    }
}

/// 30/360 ISMA convention.
#[derive(Clone, Copy, Debug)]
pub struct ISMA {}

impl ISMA {
    pub fn name(&self) -> (r: String)
        ensures
            r@ == "30/360 (Bond Basis)"@,
    {
        "30/360 (Bond Basis)".to_owned()
    }

    /// Returns the number of days between two dates.
    pub fn day_count(&self, d1: &Date, d2: &Date) -> (r: i32)
        ensures
            r == isma_day_count(d1@, d2@),
    {
        let mut dd1 = d1.day_of_month() as i32;
        let mut dd2 = d2.day_of_month() as i32;
        let mm1 = d1.month().to_integer();
        let mm2 = d2.month().to_integer();
        let yy1 = d1.year();
        let yy2 = d2.year();

        if dd1 == 31 {
            dd1 = 30;
        }
        if dd2 == 31 && dd1 == 30 {
            dd2 = 30;
        }
        360 * (yy2 - yy1) + 30 * (mm2 - mm1) + (dd2 - dd1)
    }
}

/// 30/360 EU convention.
#[derive(Clone, Copy, Debug)]
pub struct EU {}

impl EU {
    pub fn name(&self) -> (r: String)
        ensures
            r@ == "30E/360 (Eurobond Basis)"@,
    {
        "30E/360 (Eurobond Basis)".to_owned()
    }

    /// Returns the number of days between two dates.
    pub fn day_count(&self, d1: &Date, d2: &Date) -> (r: i32)
        ensures
            r == eu_day_count(d1@, d2@),
            r == 360 * (year_of_serial(d2@) - year_of_serial(d1@)) + 30 * (month_of_serial(d2@)
                - month_of_serial(d1@)) + (capped_at_30(day_of_serial(d2@)) - capped_at_30(
                day_of_serial(d1@),
            )),
    {
        let mut dd1 = d1.day_of_month();
        let mut dd2 = d2.day_of_month();
        proof {
            lemma_eu_day_count(d1@, d2@);
        }
        let mm1 = d1.month().to_integer();
        let mm2 = d2.month().to_integer();
        let yy1 = d1.year();
        let yy2 = d2.year();

        if dd1 == 31 {
            dd1 = 30;
        }
        if dd2 == 31 {
            dd2 = 30;
        }

        360 * (yy2 - yy1) + 30 * (mm2 - mm1) + (dd2 as i32 - dd1 as i32)
    }
}

/// 30/360 IT convention.
#[derive(Clone, Copy, Debug)]
pub struct IT {}

impl IT {
    pub fn name(&self) -> (r: String)
        ensures
            r@ == "30/360 (Italian)"@,
    {
        "30/360 (Italian)".to_owned()
    }

    /// Returns the number of days between two dates.
    pub fn day_count(&self, d1: &Date, d2: &Date) -> (r: i32)
        ensures
            r == it_day_count(d1@, d2@),
    {
        let mut dd1 = d1.day_of_month();
        let mut dd2 = d2.day_of_month();
        let mm1 = d1.month().to_integer();
        let mm2 = d2.month().to_integer();
        let yy1 = d1.year();
        let yy2 = d2.year();

        if dd1 == 31 {
            dd1 = 30;
        }
        if dd2 == 31 {
            dd2 = 30;
        }

        if mm1 == 2 && dd1 > 27 {
            dd1 = 30;
        }
        if mm2 == 2 && dd2 > 27 {
            dd2 = 30;
        }

        360 * (yy2 - yy1) + 30 * (mm2 - mm1) + (dd2 as i32 - dd1 as i32)
    }
}

/// 30/360 ISDA convention.
#[derive(Clone, Copy, Debug)]
pub struct ISDA {
    pub termination_date: Date,
}

impl ISDA {
    pub fn name(&self) -> (r: String)
        ensures
            r@ == "30E/360 (ISDA)"@,
    {
        "30E/360 (ISDA)".to_owned()
    }

    /// Returns the number of days between two dates.
    pub fn day_count(&self, d1: &Date, d2: &Date) -> (r: i32)
        ensures
            r == isda_day_count(d1@, d2@, self.termination_date@),
    {
        let mut dd1 = d1.day_of_month();
        let mut dd2 = d2.day_of_month();
        let mm1 = d1.month();
        let mm2 = d2.month();
        let yy1 = d1.year();
        let yy2 = d2.year();

        if dd1 == 31 {
            dd1 = 30;
        }
        if dd2 == 31 {
            dd2 = 30;
        }

        if is_last_of_february(dd1, mm1, yy1) {
            dd1 = 30;
        }

        if d2.serial_number() != self.termination_date.serial_number() && is_last_of_february(
            dd2,
            mm2,
            yy2,
        ) {
            dd2 = 30;
        }

        360 * (yy2 - yy1) + 30 * (mm2.to_integer() - mm1.to_integer()) + (dd2 as i32 - dd1 as i32)
    }
}

/// 30/360 NASD convention.
#[derive(Clone, Copy, Debug)]
pub struct NASD {}

impl NASD {
    pub fn name(&self) -> (r: String)
        ensures
            r@ == "30/360 (NASD)"@,
    {
        "30/360 (NASD)".to_owned()
    }

    /// Returns the number of days between two dates.
    pub fn day_count(&self, d1: &Date, d2: &Date) -> (r: i32)
        ensures
            r == nasd_day_count(d1@, d2@),
    {
        let mut dd1 = d1.day_of_month();
        let mut dd2 = d2.day_of_month();
        let mm1 = d1.month().to_integer();
        let mut mm2 = d2.month().to_integer();
        let yy1 = d1.year();
        let yy2 = d2.year();

        if dd1 == 31 {
            dd1 = 30;
        }
        if dd2 == 31 && dd1 >= 30 {
            dd2 = 30;
        }
        if dd2 == 31 && dd1 < 30 {
            dd2 = 1;
            mm2 += 1;
        }

        360 * (yy2 - yy1) + 30 * (mm2 - mm1) + (dd2 as i32 - dd1 as i32)
    }
}

fn is_last_of_february(d: Day, m: Month, y: Year) -> (r: bool)
    requires
        1900 <= y < 2200,
    ensures
        r == is_last_of_february_spec(d as int, m.number(), y as int),
{
    let leap_adjustment = if Date::is_leap(y) {
        1
    } else {
        0
    };
    m.to_integer() == 2 && d == 28 + leap_adjustment
}

} // verus!
