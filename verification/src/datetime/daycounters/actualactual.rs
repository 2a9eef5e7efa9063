use vstd::prelude::*;

use crate::datetime::calendar::opt_serial;
use crate::datetime::date::{
    day_of_serial, days_before_month, days_before_year, is_leap_year, is_valid_serial,
    lemma_serial_has_date, lemma_year_length, month_of_serial, serial_of, year_of_serial, Date,
    MINIMUM_SERIAL_NUMBER,
};
use crate::datetime::months::Month;
use crate::datetime::schedule::{checked_shift, serials, Schedule};
use crate::datetime::schedule_rules::{null_serial, shifted, ScheduleModel};
use crate::datetime::timeunit::TimeUnit;

verus! {

/// A year fraction written out as a sum of terms: each pair `(n, d)` stands for `n / d`
/// years, and the terms are added in order.
pub type YearFractionTerms = Vec<(i64, i64)>;

/// The terms of a year fraction as integers.
pub open spec fn term_values(v: Seq<(i64, i64)>) -> Seq<(int, int)> {
    v.map_values(|t: (i64, i64)| (t.0 as int, t.1 as int))
}

/// The terms with their numerators negated: the opposite year fraction.
pub open spec fn negated(t: Seq<(int, int)>) -> Seq<(int, int)> {
    t.map_values(|x: (int, int)| (-x.0, x.1))
}

/// Days from `d1` to `d2`, as the actual/actual conventions count them.
pub open spec fn actual_days(d1: int, d2: int) -> int {
    d2 - d1
}

pub(crate) fn negate_terms(v: YearFractionTerms) -> (r: YearFractionTerms)
    requires
        forall|i: int| 0 <= i < v.len() ==> v@[i].0 > i64::MIN,
    ensures
        term_values(r@) == negated(term_values(v@)),
        r.len() == v.len(),
        forall|i: int| 0 <= i < v.len() ==> #[trigger] r@[i].0 == -v@[i].0,
{
    let mut r: YearFractionTerms = Vec::new();
    let mut i: usize = 0;
    while i < v.len()
        invariant
            i <= v.len(),
            r.len() == i,
            forall|j: int| 0 <= j < v.len() ==> v@[j].0 > i64::MIN,
            forall|j: int| 0 <= j < i ==> #[trigger] r@[j].0 == -v@[j].0,
            term_values(r@) == negated(term_values(v@)).take(i as int),
        decreases v.len() - i,
    {
        let (n, d) = v[i];
        let ghost before = r@;
        r.push((-n, d));
        proof {
            let b = negated(term_values(v@)).take(i + 1);
            assert(term_values(v@)[i as int] == (n as int, d as int));
            assert forall|j: int| 0 <= j < i + 1 implies #[trigger] term_values(r@)[j] == b[j] by {
                if j < i {
                    assert(r@[j] == before[j]);
                    assert(term_values(before)[j] == term_values(r@)[j]);
                }
            }
            assert(term_values(r@) =~= b);
        }
        i = i + 1;
    }
    proof {
        assert(term_values(r@) =~= negated(term_values(v@)));
    }
    r
}

/// The number of days from `d1` to `d2`.
fn days_between(d1: &Date, d2: &Date) -> (r: i64)
    ensures
        r == actual_days(d1@, d2@),
        -200000 < r < 200000,
{
    (d2.serial_number() as i64) - (d1.serial_number() as i64)
}

/// Actual/Actual (ISDA): the days of each calendar year divided by that year's length.
#[derive(Clone, Copy, Debug)]
pub struct ISDA {}

/// The ISDA year fraction from `d1` to `d2`: the whole years in between, and the days in the
/// first and in the last year over the lengths of those years.  `None` when `d1` (or `d2`,
/// going backward) falls in 2199, whose next January 1st is out of range.
pub open spec fn isda_terms(d1: int, d2: int) -> Option<Seq<(int, int)>> {
    if d1 == d2 {
        Some(seq![])
    } else {
        let (a, b) = if d1 < d2 {
            (d1, d2)
        } else {
            (d2, d1)
        };
        let y1 = year_of_serial(a);
        let y2 = year_of_serial(b);
        if y1 + 1 >= 2200 {
            None
        } else {
            let dib1: int = if is_leap_year(y1) {
                366
            } else {
                365
            };
            let dib2: int = if is_leap_year(y2) {
                366
            } else {
                365
            };
            let t = seq![
                (y2 - y1 - 1, 1int),
                (actual_days(a, serial_of(y1 + 1, 1, 1)), dib1),
                (actual_days(serial_of(y2, 1, 1), b), dib2),
            ];
            if d1 < d2 {
                Some(t)
            } else {
                Some(negated(t))
            }
        }
    }
}

impl ISDA {
    pub fn name(&self) -> (r: String)
        ensures
            r@ == "Actual/Actual (ISDA)"@,
    {
        "Actual/Actual (ISDA)".to_owned()
    }

    /// The number of days from `d1` to `d2`.
    pub fn day_count(&self, d1: &Date, d2: &Date) -> (r: i32)
        ensures
            r == actual_days(d1@, d2@),
    {
        d2.serial_number() - d1.serial_number()
    }

    /// The year fraction from `d1` to `d2` as a sum of terms (see [isda_terms]).
    pub fn year_fraction_terms(&self, d1: &Date, d2: &Date) -> (r: Option<YearFractionTerms>)
        ensures
            (match r {
                Some(v) => isda_terms(d1@, d2@) == Some(term_values(v@)) && small_terms(v@),
                None => isda_terms(d1@, d2@) is None,
            }),
    {
        if d1.serial_number() == d2.serial_number() {
            let v: YearFractionTerms = Vec::new();
            proof {
                assert(term_values(v@) =~= Seq::<(int, int)>::empty());
            }
            return Some(v);
        }
        let forward = d1.serial_number() < d2.serial_number();
        let (a, b) = if forward {
            (d1, d2)
        } else {
            (d2, d1)
        };
        let y1 = a.year();
        let y2 = b.year();
        if y1 + 1 >= 2200 {
            return None;
        }
        let dib1: i64 = if Date::is_leap(y1) {
            366
        } else {
            365
        };
        let dib2: i64 = if Date::is_leap(y2) {
            366
        } else {
            365
        };
        let next_year = Date::new(1, Month::January, y1 + 1);
        let this_year = Date::new(1, Month::January, y2);
        let mut v: YearFractionTerms = Vec::new();
        v.push(((y2 - y1 - 1) as i64, 1));
        v.push((days_between(a, &next_year), dib1));
        v.push((days_between(&this_year, b), dib2));
        proof {
            assert(term_values(v@) =~= seq![
                (y2 - y1 - 1, 1int),
                (actual_days(a@, serial_of(y1 + 1, 1, 1)), dib1 as int),
                (actual_days(serial_of(y2 as int, 1, 1), b@), dib2 as int),
            ]);
        }
        if forward {
            Some(v)
        } else {
            Some(negate_terms(v))
        }
    }
}

/// Actual/Actual (AFB): whole years counted back from the end date, and the days left over
/// a year of 365 days, or 366 when that stretch contains a February 29th.
#[derive(Clone, Copy, Debug)]
pub struct AFB {}

/// The date with serial number `s` moved back one year, then on to February 29th when it
/// lands on February 28th of a leap year.
pub open spec fn afb_year_back(s: int) -> Option<int> {
    match shifted(s, -1, TimeUnit::Years) {
        None => None,
        Some(t) => if day_of_serial(t) == 28 && month_of_serial(t) == 2 && is_leap_year(
            year_of_serial(t),
        ) {
            Some(t + 1)
        } else {
            Some(t)
        },
    }
}

/// The whole years counted back from `e` without going before `d1`, and the date reached.
pub open spec fn afb_years(d1: int, e: int) -> Option<(int, int)>
    decreases e - d1,
{
    if e <= d1 {
        Some((0, e))
    } else {
        match afb_year_back(e) {
            None => None,
            Some(t) => if t >= d1 {
                if t >= e {
                    None
                } else {
                    match afb_years(d1, t) {
                        None => None,
                        Some((k, f)) => Some((k + 1, f)),
                    }
                }
            } else {
                Some((0, e))
            },
        }
    }
}

/// The length of the year that the stretch from `d1` to `e` is measured in: 366 when it
/// contains the February 29th of the year of `e` (or, when that year is not a leap year, of
/// the year of `d1`), else 365.
pub open spec fn afb_denominator(d1: int, e: int) -> int {
    let ye = year_of_serial(e);
    let y1 = year_of_serial(d1);
    if is_leap_year(ye) {
        let f = serial_of(ye, 2, 29);
        if e > f && d1 <= f {
            366
        } else {
            365
        }
    } else if is_leap_year(y1) {
        let f = serial_of(y1, 2, 29);
        if e > f && d1 <= f {
            366
        } else {
            365
        }
    } else {
        365
    }
}

/// The AFB year fraction from `d1` to `d2` as a sum of terms: the whole years, then the days
/// left over the denominator.  `None` when counting back leaves the range of dates.
pub open spec fn afb_terms(d1: int, d2: int) -> Option<Seq<(int, int)>> {
    if d1 == d2 {
        Some(seq![])
    } else {
        let (a, b) = if d1 < d2 {
            (d1, d2)
        } else {
            (d2, d1)
        };
        match afb_years(a, b) {
            None => None,
            Some((k, e)) => {
                let t = seq![(k, 1int), (actual_days(a, e), afb_denominator(a, e))];
                if d1 < d2 {
                    Some(t)
                } else {
                    Some(negated(t))
                }
            },
        }
    }
}

/// The date moved back one year, then on to February 29th when it lands on February 28th of
/// a leap year.
fn afb_year_back_exec(d: &Date) -> (r: Option<Date>)
    ensures
        opt_serial(r) == afb_year_back(d@),
{
    let t = match checked_shift(*d, -1, TimeUnit::Years) {
        None => {
            return None;
        },
        Some(t) => t,
    };
    let y = t.year();
    if t.day_of_month() == 28 && t.month().to_integer() == 2 && Date::is_leap(y) {
        let f = Date::new(29, Month::February, y);
        proof {
            crate::datetime::date::lemma_serial_has_date(t@);
        }
        Some(f)
    } else {
        Some(t)
    }
}

fn afb_years_exec(d1: &Date, e: Date) -> (r: Option<(i64, Date)>)
    ensures
        (match r {
            Some((k, f)) => afb_years(d1@, e@) == Some((k as int, f@)) && 0 <= k && (k == 0 || k <= e@ - d1@),
            None => afb_years(d1@, e@) is None,
        }),
    decreases e@ - d1@,
{
    if e.serial_number() <= d1.serial_number() {
        return Some((0, e));
    }
    match afb_year_back_exec(&e) {
        None => None,
        Some(t) => {
            if t.serial_number() >= d1.serial_number() {
                if t.serial_number() >= e.serial_number() {
                    None
                } else {
                    match afb_years_exec(d1, t) {
                        None => None,
                        Some((k, f)) => Some((k + 1, f)),
                    }
                }
            } else {
                Some((0, e))
            }
        },
    }
}

impl AFB {
    pub fn name(&self) -> (r: String)
        ensures
            r@ == "Actual/Actual (AFB)"@,
    {
        "Actual/Actual (AFB)".to_owned()
    }

    /// The number of days from `d1` to `d2`.
    pub fn day_count(&self, d1: &Date, d2: &Date) -> (r: i32)
        ensures
            r == actual_days(d1@, d2@),
    {
        d2.serial_number() - d1.serial_number()
    }

    /// The year fraction from `d1` to `d2` as a sum of terms (see [afb_terms]).
    pub fn year_fraction_terms(&self, d1: &Date, d2: &Date) -> (r: Option<YearFractionTerms>)
        ensures
            (match r {
                Some(v) => afb_terms(d1@, d2@) == Some(term_values(v@)) && small_terms(v@),
                None => afb_terms(d1@, d2@) is None,
            }),
    {
        if d1.serial_number() == d2.serial_number() {
            let v: YearFractionTerms = Vec::new();
            proof {
                assert(term_values(v@) =~= Seq::<(int, int)>::empty());
            }
            return Some(v);
        }
        let forward = d1.serial_number() < d2.serial_number();
        let (a, b) = if forward {
            (d1, d2)
        } else {
            (d2, d1)
        };
        let (k, e) = match afb_years_exec(a, *b) {
            None => {
                return None;
            },
            Some(x) => x,
        };
        let ye = e.year();
        let y1 = a.year();
        let den: i64 = if Date::is_leap(ye) {
            let f = Date::new(29, Month::February, ye);
            if e.serial_number() > f.serial_number() && a.serial_number() <= f.serial_number() {
                366
            } else {
                365
            }
        } else if Date::is_leap(y1) {
            let f = Date::new(29, Month::February, y1);
            if e.serial_number() > f.serial_number() && a.serial_number() <= f.serial_number() {
                366
            } else {
                365
            }
        } else {
            365
        };
        let mut v: YearFractionTerms = Vec::new();
        v.push((k, 1));
        v.push((days_between(a, &e), den));
        proof {
            assert(term_values(v@) =~= seq![
                (k as int, 1int),
                (actual_days(a@, e@), afb_denominator(a@, e@)),
            ]);
        }
        if forward {
            Some(v)
        } else {
            Some(negate_terms(v))
        }
    }
}

/// Actual/Actual (ISMA) as it was computed before the schedule-based version: each stretch
/// measured in reference periods whose length in months is estimated from their days.
#[derive(Clone, Copy, Debug)]
pub struct OldISMA {}

/// `12 * days / 365` rounded to the nearest integer, for a nonnegative number of days (no
/// ties can occur).
pub open spec fn months_in_days(days: int) -> int {
    (24 * days + 365) / 730
}

/// The reference period that the old ISMA convention uses for a stretch from `d1` to `d2`
/// with given reference dates: null dates are replaced by `d1` and `d2`, and a reference
/// period shorter than half a month by the year from `d1`.  Gives (start, end, months);
/// `None` when the reference period does not end after both its start and `d1`, or the year
/// from `d1` leaves the range of dates.
pub open spec fn old_isma_reference(d1: int, d2: int, rs: int, re: int) -> Option<(int, int, int)> {
    let rs1 = if rs != null_serial() {
        rs
    } else {
        d1
    };
    let re1 = if re != null_serial() {
        re
    } else {
        d2
    };
    if !(re1 > rs1 && re1 > d1) {
        None
    } else {
        let m0 = months_in_days(re1 - rs1);
        if m0 == 0 {
            match shifted(d1, 1, TimeUnit::Years) {
                None => None,
                Some(e) => Some((d1, e, 12)),
            }
        } else {
            Some((rs1, re1, m0))
        }
    }
}

/// The old ISMA year fraction of a stretch that lies within its reference period: the
/// months of the period, in years, times the share of its days.
pub open spec fn old_isma_direct(d1: int, d2: int, rs: int, re: int) -> Option<Seq<(int, int)>> {
    if d1 == d2 {
        Some(seq![])
    } else {
        match old_isma_reference(d1, d2, rs, re) {
            None => None,
            Some((s, e, m)) => Some(seq![(m * actual_days(d1, d2), 12 * actual_days(s, e))]),
        }
    }
}

/// The regular periods of `months` months that follow `re` and end at or before `d2`,
/// counted from the `i`-th: their number, and the period that contains `d2`.
pub open spec fn old_isma_periods(re: int, d2: int, months: int, i: int) -> Option<(int, int, int)>
    decreases 4000 - i,
{
    if !(0 <= i < 4000) {
        None
    } else {
        match (
            shifted(re, months * i, TimeUnit::Months),
            shifted(re, months * (i + 1), TimeUnit::Months),
        ) {
            (Some(nrs), Some(nre)) => if d2 < nre {
                Some((i, nrs, nre))
            } else {
                old_isma_periods(re, d2, months, i + 1)
            },
            _ => None,
        }
    }
}

/// The old ISMA year fraction from `d1` to `d2` with reference period from `rs` to `re`, as
/// a sum of terms: a stretch inside the reference period counts its share of the period; a
/// stretch that starts before it is split at the period's start and measured against the
/// period before; a stretch that ends after it counts the part up to its end, one period's
/// length for each further whole period, and the rest against the period that holds `d2`.
pub open spec fn old_isma_terms(d1: int, d2: int, rs: int, re: int) -> Option<Seq<(int, int)>>
    decreases (if d1 > d2 {
        1int
    } else {
        0int
    }), (if rs > d1 {
        rs - d1
    } else {
        0int
    }),
{
    if d1 == d2 {
        Some(seq![])
    } else if d1 > d2 {
        match old_isma_terms(d2, d1, rs, re) {
            None => None,
            Some(t) => Some(negated(t)),
        }
    } else {
        match old_isma_reference(d1, d2, rs, re) {
            None => None,
            Some((rs2, re2, months)) => if d2 <= re2 {
                if d1 >= rs2 {
                    Some(seq![(months * actual_days(d1, d2), 12 * actual_days(rs2, re2))])
                } else {
                    match shifted(rs2, -months, TimeUnit::Months) {
                        None => None,
                        Some(prev) => if prev >= rs2 || rs2 != rs {
                            None
                        } else if d2 > rs2 {
                            match old_isma_terms(d1, rs2, prev, rs2) {
                                None => None,
                                Some(a) => match old_isma_direct(rs2, d2, rs2, re2) {
                                    None => None,
                                    Some(b) => Some(a + b),
                                },
                            }
                        } else {
                            old_isma_terms(d1, d2, prev, rs2)
                        },
                    }
                }
            } else if !(rs2 <= d1) {
                None
            } else {
                match old_isma_direct(d1, re2, rs2, re2) {
                    None => None,
                    Some(a) => match old_isma_periods(re2, d2, months, 0) {
                        None => None,
                        Some((count, nrs, nre)) => match old_isma_direct(nrs, d2, nrs, nre) {
                            None => None,
                            Some(b) => Some(a + Seq::new(count as nat, |i: int| (months, 12int)) + b),
                        },
                    },
                }
            },
        }
    }
}

/// Numerators small enough to negate and add.
pub open spec fn small_terms(v: Seq<(i64, i64)>) -> bool {
    forall|i: int| 0 <= i < v.len() ==> -1_000_000_000_000 <= #[trigger] v[i].0 <= 1_000_000_000_000
}

fn old_isma_reference_exec(d1: &Date, d2: &Date, rs: &Date, re: &Date) -> (r: Option<(Date, Date, i64)>)
    ensures
        (match r {
            Some((s, e, m)) => old_isma_reference(d1@, d2@, rs@, re@) == Some((s@, e@, m as int))
                && 1 <= m <= 4000,
            None => old_isma_reference(d1@, d2@, rs@, re@) is None,
        }),
{
    let rs1 = if rs.serial_number() != MINIMUM_SERIAL_NUMBER {
        *rs
    } else {
        *d1
    };
    let re1 = if re.serial_number() != MINIMUM_SERIAL_NUMBER {
        *re
    } else {
        *d2
    };
    if !(re1.serial_number() > rs1.serial_number() && re1.serial_number() > d1.serial_number()) {
        return None;
    }
    let days = days_between(&rs1, &re1);
    let m0 = (24 * days + 365) / 730;
    if m0 == 0 {
        match checked_shift(*d1, 1, TimeUnit::Years) {
            None => None,
            Some(e) => Some((*d1, e, 12)),
        }
    } else {
        Some((rs1, re1, m0))
    }
}

fn old_isma_direct_exec(d1: &Date, d2: &Date, rs: &Date, re: &Date) -> (r: Option<YearFractionTerms>)
    ensures
        (match r {
            Some(v) => old_isma_direct(d1@, d2@, rs@, re@) == Some(term_values(v@)) && small_terms(v@),
            None => old_isma_direct(d1@, d2@, rs@, re@) is None,
        }),
{
    let mut v: YearFractionTerms = Vec::new();
    if d1.serial_number() == d2.serial_number() {
        proof {
            assert(term_values(v@) =~= Seq::<(int, int)>::empty());
        }
        return Some(v);
    }
    match old_isma_reference_exec(d1, d2, rs, re) {
        None => None,
        Some((s, e, m)) => {
            let n = days_between(d1, d2);
            let d = days_between(&s, &e);
            assert(-800_000_000 <= m * n <= 800_000_000) by (nonlinear_arith)
                requires
                    1 <= m <= 4000,
                    -200000 < n < 200000,
            ;
            v.push((m * n, 12 * d));
            proof {
                assert(term_values(v@) =~= seq![(m * actual_days(d1@, d2@), 12 * actual_days(s@, e@))]);
            }
            Some(v)
        },
    }
}

fn old_isma_periods_exec(re: &Date, d2: &Date, months: i64, i: i64) -> (r: Option<(i64, Date, Date)>)
    requires
        1 <= months <= 4000,
        0 <= i,
    ensures
        (match r {
            Some((c, s, e)) => old_isma_periods(re@, d2@, months as int, i as int) == Some(
                (c as int, s@, e@),
            ) && 0 <= c < 4000,
            None => old_isma_periods(re@, d2@, months as int, i as int) is None,
        }),
    decreases 4000 - i,
{
    if i >= 4000 {
        return None;
    }
    assert(0 <= months * (i + 1) <= 16_000_000) by (nonlinear_arith)
        requires
            1 <= months <= 4000,
            0 <= i < 4000,
    ;
    assert(0 <= months * i <= months * (i + 1)) by (nonlinear_arith)
        requires
            1 <= months <= 4000,
            0 <= i < 4000,
    ;
    let a = (months * i) as i32;
    let b = (months * (i + 1)) as i32;
    match (checked_shift(*re, a, TimeUnit::Months), checked_shift(*re, b, TimeUnit::Months)) {
        (Some(nrs), Some(nre)) => {
            if d2.serial_number() < nre.serial_number() {
                Some((i, nrs, nre))
            } else {
                old_isma_periods_exec(re, d2, months, i + 1)
            }
        },
        _ => None,
    }
}

/// `count` terms of `months / 12` years.
fn whole_periods(months: i64, count: i64) -> (r: YearFractionTerms)
    requires
        1 <= months <= 4000,
        0 <= count,
    ensures
        term_values(r@) == Seq::new(count as nat, |i: int| (months as int, 12int)),
        small_terms(r@),
{
    let mut v: YearFractionTerms = Vec::new();
    let mut i: i64 = 0;
    while i < count
        invariant
            0 <= i <= count,
            1 <= months <= 4000,
            v.len() == i,
            forall|j: int| 0 <= j < i ==> #[trigger] v@[j] == (months, 12i64),
        decreases count - i,
    {
        v.push((months, 12));
        i = i + 1;
    }
    proof {
        assert(term_values(v@) =~= Seq::new(count as nat, |j: int| (months as int, 12int)));
    }
    v
}

/// The terms of `a` followed by those of `b`.
pub(crate) fn concat_terms(a: YearFractionTerms, b: YearFractionTerms) -> (r: YearFractionTerms)
    ensures
        term_values(r@) == term_values(a@) + term_values(b@),
        small_terms(a@) && small_terms(b@) ==> small_terms(r@),
{
    let mut a = a;
    let mut b = b;
    let ghost a0 = a@;
    let ghost b0 = b@;
    a.append(&mut b);
    proof {
        assert(a@ =~= a0 + b0);
        assert(term_values(a@) =~= term_values(a0) + term_values(b0));
        if small_terms(a0) && small_terms(b0) {
            assert forall|i: int| 0 <= i < a@.len() implies -1_000_000_000_000 <= #[trigger] a@[i].0
                <= 1_000_000_000_000 by {
                if i < a0.len() {
                    assert(a@[i] == a0[i]);
                } else {
                    assert(a@[i] == b0[i - a0.len()]);
                }
            }
        }
    }
    a
}

#[verifier::rlimit(80)]
fn old_isma_exec(d1: Date, d2: Date, rs: Date, re: Date) -> (r: Option<YearFractionTerms>)
    ensures
        (match r {
            Some(v) => old_isma_terms(d1@, d2@, rs@, re@) == Some(term_values(v@)) && small_terms(v@),
            None => old_isma_terms(d1@, d2@, rs@, re@) is None,
        }),
    decreases (if d1@ > d2@ {
        1int
    } else {
        0int
    }), (if rs@ > d1@ {
        rs@ - d1@
    } else {
        0int
    }),
{
    let s1 = d1.serial_number();
    let s2 = d2.serial_number();
    if s1 == s2 {
        let v: YearFractionTerms = Vec::new();
        proof {
            assert(term_values(v@) =~= Seq::<(int, int)>::empty());
        }
        return Some(v);
    }
    if s1 > s2 {
        return match old_isma_exec(d2, d1, rs, re) {
            None => None,
            Some(t) => {
                let n = negate_terms(t);
                proof {
                    assert forall|i: int| 0 <= i < n@.len() implies -1_000_000_000_000
                        <= #[trigger] n@[i].0 <= 1_000_000_000_000 by {
                        assert(n@[i].0 == -t@[i].0);
                    }
                }
                Some(n)
            },
        };
    }
    let (rs2, re2, months) = match old_isma_reference_exec(&d1, &d2, &rs, &re) {
        None => {
            return None;
        },
        Some(x) => x,
    };
    if s2 <= re2.serial_number() {
        if s1 >= rs2.serial_number() {
            let n = days_between(&d1, &d2);
            let d = days_between(&rs2, &re2);
            assert(-800_000_000 <= months * n <= 800_000_000) by (nonlinear_arith)
                requires
                    1 <= months <= 4000,
                    -200000 < n < 200000,
            ;
            let mut v: YearFractionTerms = Vec::new();
            v.push((months * n, 12 * d));
            proof {
                assert(term_values(v@) =~= seq![
                    (months * actual_days(d1@, d2@), 12 * actual_days(rs2@, re2@)),
                ]);
            }
            Some(v)
        } else {
            let prev = match checked_shift(rs2, -(months as i32), TimeUnit::Months) {
                None => {
                    return None;
                },
                Some(p) => p,
            };
            if prev.serial_number() >= rs2.serial_number() || rs2.serial_number() != rs.serial_number() {
                return None;
            }
            if s2 > rs2.serial_number() {
                let a = match old_isma_exec(d1, rs2, prev, rs2) {
                    None => {
                        return None;
                    },
                    Some(a) => a,
                };
                let b = match old_isma_direct_exec(&rs2, &d2, &rs2, &re2) {
                    None => {
                        return None;
                    },
                    Some(b) => b,
                };
                Some(concat_terms(a, b))
            } else {
                old_isma_exec(d1, d2, prev, rs2)
            }
        }
    } else if !(rs2.serial_number() <= s1) {
        None
    } else {
        let a = match old_isma_direct_exec(&d1, &re2, &rs2, &re2) {
            None => {
                return None;
            },
            Some(a) => a,
        };
        let (count, nrs, nre) = match old_isma_periods_exec(&re2, &d2, months, 0) {
            None => {
                return None;
            },
            Some(x) => x,
        };
        let b = match old_isma_direct_exec(&nrs, &d2, &nrs, &nre) {
            None => {
                return None;
            },
            Some(b) => b,
        };
        let mid = whole_periods(months, count);
        let ghost ta = term_values(a@);
        let ghost tb = term_values(b@);
        let r = concat_terms(concat_terms(a, mid), b);
        proof {
            assert(old_isma_periods(re2@, d2@, months as int, 0) == Some((count as int, nrs@, nre@)));
            assert(term_values(r@) == ta + Seq::new(count as nat, |i: int| (months as int, 12int)) + tb);
        }
        Some(r)
    }
}

impl OldISMA {
    pub fn name(&self) -> (r: String)
        ensures
            r@ == "Actual/Actual (ISMA)"@,
    {
        "Actual/Actual (ISMA)".to_owned()
    }

    /// The number of days from `d1` to `d2`.
    pub fn day_count(&self, d1: &Date, d2: &Date) -> (r: i32)
        ensures
            r == actual_days(d1@, d2@),
    {
        d2.serial_number() - d1.serial_number()
    }

    /// The year fraction from `d1` to `d2` with the given reference period, as a sum of terms
    /// (see [old_isma_terms]).
    pub fn year_fraction_terms(
        &self,
        d1: &Date,
        d2: &Date,
        ref_period_start: &Date,
        ref_period_end: &Date,
    ) -> (r: Option<YearFractionTerms>)
        ensures
            (match r {
                Some(v) => old_isma_terms(d1@, d2@, ref_period_start@, ref_period_end@) == Some(
                    term_values(v@),
                ) && small_terms(v@),
                None => old_isma_terms(d1@, d2@, ref_period_start@, ref_period_end@) is None,
            }),
    {
        old_isma_exec(*d1, *d2, *ref_period_start, *ref_period_end)
    }
}

/// Actual/Actual (ISMA): each stretch of a schedule's coupon periods counts its share of the
/// period, over the number of periods in a year.
#[derive(Clone)]
pub struct ISMA {
    pub schedule: Schedule,
}

/// The coupon dates of a schedule with notional ones added: an irregular first period is
/// replaced by a regular one ending at the first coupon (with one more before it when that
/// notional start is after the issue date), and an irregular last period likewise; the
/// notional last coupon takes the place at the schedule's last index.  `None` when a date
/// leaves the range.
pub open spec fn quasi_payment_dates(m: ScheduleModel) -> Option<Seq<int>> {
    let n = m.dates.len() as int;
    let cal = m.calendar;
    let c = m.convention;
    let eom = m.end_of_month;
    let len = m.tenor.length as int;
    let unit = m.tenor.unit;
    let step1: Option<Seq<int>> = if !(m.is_regular.len() > 0) || !m.is_regular[0] {
        match cal.advanced(m.dates[1], -len, unit, c, eom) {
            None => None,
            Some(nf) => {
                let d = m.dates.update(0, nf);
                if nf > m.dates[0] {
                    match cal.advanced(nf, -len, unit, c, eom) {
                        None => None,
                        Some(p) => Some(seq![p] + d),
                    }
                } else {
                    Some(d)
                }
            },
        }
    } else {
        Some(m.dates)
    };
    match step1 {
        None => None,
        Some(d1) => if !(m.is_regular.len() > 0) || !m.is_regular[n - 2] {
            match cal.advanced(m.dates[n - 2], len, unit, c, eom) {
                None => None,
                Some(nl) => {
                    let d2 = d1.update(n - 1, nl);
                    if nl < m.dates[n - 1] {
                        match cal.advanced(nl, len, unit, c, eom) {
                            None => None,
                            Some(x) => Some(d2.push(x)),
                        }
                    } else {
                        Some(d2)
                    }
                },
            }
        } else {
            Some(d1)
        },
    }
}

/// The earliest of the dates.
pub open spec fn earliest(s: Seq<int>) -> int
    decreases s.len(),
{
    if s.len() <= 1 {
        s[0]
    } else {
        let m = earliest(s.drop_last());
        if s.last() < m {
            s.last()
        } else {
            m
        }
    }
}

/// The latest of the dates.
pub open spec fn latest(s: Seq<int>) -> int
    decreases s.len(),
{
    if s.len() <= 1 {
        s[0]
    } else {
        let m = latest(s.drop_last());
        if s.last() > m {
            s.last()
        } else {
            m
        }
    }
}

/// The year fraction of the stretch from `a` to `b` inside the reference period from `s` to
/// `e`: its days over the days of the period times the periods in a year (a period of more
/// than 15 days of `d` days is taken as `12 * d / 365` months, rounded, and a year holds
/// 12 months over that, rounded; a shorter one counts as the year from `a`).
pub open spec fn isma_period_term(a: int, b: int, s: int, e: int) -> Option<(int, int)> {
    if !(a <= b) {
        None
    } else if actual_days(s, e) < 16 {
        match shifted(a, 1, TimeUnit::Years) {
            None => None,
            Some(y) => Some((actual_days(a, b), actual_days(a, y))),
        }
    } else {
        let m = months_in_days(actual_days(s, e));
        Some((actual_days(a, b), actual_days(s, e) * ((24 + m) / (2 * m))))
    }
}

/// The terms of the coupon periods from the `i`-th on that overlap the stretch from `d1` to
/// `d2`.
pub open spec fn isma_period_terms(cd: Seq<int>, d1: int, d2: int, i: int) -> Option<
    Seq<(int, int)>,
>
    decreases cd.len() - i,
{
    if i < 0 || i + 1 >= cd.len() {
        Some(seq![])
    } else {
        let s = cd[i];
        let e = cd[i + 1];
        match isma_period_terms(cd, d1, d2, i + 1) {
            None => None,
            Some(rest) => if d1 < e && d2 > s {
                match isma_period_term(
                    if d1 > s {
                        d1
                    } else {
                        s
                    },
                    if d2 < e {
                        d2
                    } else {
                        e
                    },
                    s,
                    e,
                ) {
                    None => None,
                    Some(t) => Some(seq![t] + rest),
                }
            } else {
                Some(rest)
            },
        }
    }
}

/// The ISMA year fraction from `d1` to `d2` for a schedule: the terms of the coupon periods
/// (notional ones included) that the stretch overlaps.  `None` when the stretch leaves the
/// coupon dates or a date leaves the range.
pub open spec fn isma_terms(m: ScheduleModel, d1: int, d2: int) -> Option<Seq<(int, int)>> {
    if d1 == d2 {
        Some(seq![])
    } else {
        let (a, b) = if d1 < d2 {
            (d1, d2)
        } else {
            (d2, d1)
        };
        match quasi_payment_dates(m) {
            None => None,
            Some(cd) => if !(a >= earliest(cd) && b <= latest(cd)) {
                None
            } else {
                match isma_period_terms(cd, a, b, 0) {
                    None => None,
                    Some(t) => if d1 < d2 {
                        Some(t)
                    } else {
                        Some(negated(t))
                    },
                }
            },
        }
    }
}

fn earliest_exec(v: &Vec<Date>) -> (r: Date)
    requires
        v.len() >= 1,
    ensures
        r@ == earliest(serials(v@)),
{
    let ghost s = serials(v@);
    let mut m = v[0];
    let mut i: usize = 1;
    proof {
        assert(s.take(1) =~= seq![s[0]]);
    }
    while i < v.len()
        invariant
            1 <= i <= v.len(),
            s == serials(v@),
            m@ == earliest(s.take(i as int)),
        decreases v.len() - i,
    {
        proof {
            assert(s.take(i + 1).drop_last() =~= s.take(i as int));
            assert(s[i as int] == v@[i as int]@);
        }
        if v[i].serial_number() < m.serial_number() {
            m = v[i];
        }
        i = i + 1;
    }
    proof {
        assert(s.take(v.len() as int) =~= s);
    }
    m
}

fn latest_exec(v: &Vec<Date>) -> (r: Date)
    requires
        v.len() >= 1,
    ensures
        r@ == latest(serials(v@)),
{
    let ghost s = serials(v@);
    let mut m = v[0];
    let mut i: usize = 1;
    proof {
        assert(s.take(1) =~= seq![s[0]]);
    }
    while i < v.len()
        invariant
            1 <= i <= v.len(),
            s == serials(v@),
            m@ == latest(s.take(i as int)),
        decreases v.len() - i,
    {
        proof {
            assert(s.take(i + 1).drop_last() =~= s.take(i as int));
            assert(s[i as int] == v@[i as int]@);
        }
        if v[i].serial_number() > m.serial_number() {
            m = v[i];
        }
        i = i + 1;
    }
    proof {
        assert(s.take(v.len() as int) =~= s);
    }
    m
}

fn isma_period_term_exec(a: &Date, b: &Date, s: &Date, e: &Date) -> (r: Option<(i64, i64)>)
    ensures
        (match r {
            Some(t) => isma_period_term(a@, b@, s@, e@) == Some((t.0 as int, t.1 as int))
                && -200000 < t.0 < 200000,
            None => isma_period_term(a@, b@, s@, e@) is None,
        }),
{
    if !(a.serial_number() <= b.serial_number()) {
        return None;
    }
    let ref_days = days_between(s, e);
    if ref_days < 16 {
        match checked_shift(*a, 1, TimeUnit::Years) {
            None => None,
            Some(y) => Some((days_between(a, b), days_between(a, &y))),
        }
    } else {
        let m = (24 * ref_days + 365) / 730;
        assert(m >= 1);
        let cpy = (24 + m) / (2 * m);
        assert(0 <= cpy <= 12) by (nonlinear_arith)
            requires
                m >= 1,
                cpy == (24 + m) / (2 * m),
        ;
        assert(0 <= ref_days * cpy <= 12 * 200000) by (nonlinear_arith)
            requires
                16 <= ref_days < 200000,
                0 <= cpy <= 12,
        ;
        Some((days_between(a, b), ref_days * cpy))
    }
}

fn isma_period_terms_exec(cd: &Vec<Date>, d1: &Date, d2: &Date, i: usize) -> (r: Option<
    YearFractionTerms,
>)
    ensures
        (match r {
            Some(v) => isma_period_terms(serials(cd@), d1@, d2@, i as int) == Some(term_values(v@))
                && small_terms(v@),
            None => isma_period_terms(serials(cd@), d1@, d2@, i as int) is None,
        }),
    decreases cd.len() - i,
{
    let ghost sc = serials(cd@);
    if i >= cd.len() || cd.len() - i <= 1 {
        let v: YearFractionTerms = Vec::new();
        proof {
            assert(term_values(v@) =~= Seq::<(int, int)>::empty());
        }
        return Some(v);
    }
    let rest = match isma_period_terms_exec(cd, d1, d2, i + 1) {
        None => {
            return None;
        },
        Some(r) => r,
    };
    let s = cd[i];
    let e = cd[i + 1];
    proof {
        assert(sc[i as int] == s@);
        assert(sc[i + 1] == e@);
    }
    if d1.serial_number() < e.serial_number() && d2.serial_number() > s.serial_number() {
        let a = if d1.serial_number() > s.serial_number() {
            *d1
        } else {
            s
        };
        let b = if d2.serial_number() < e.serial_number() {
            *d2
        } else {
            e
        };
        match isma_period_term_exec(&a, &b, &s, &e) {
            None => None,
            Some(t) => {
                let mut v: YearFractionTerms = Vec::new();
                v.push(t);
                let r = concat_terms(v, rest);
                proof {
                    assert(term_values(seq![t]) =~= seq![(t.0 as int, t.1 as int)]);
                    assert(small_terms(seq![t]));
                }
                Some(r)
            },
        }
    } else {
        Some(rest)
    }
}

impl ISMA {
    pub fn name(&self) -> (r: String)
        ensures
            r@ == "Actual/Actual (ISMA)"@,
    {
        "Actual/Actual (ISMA)".to_owned()
    }

    /// The number of days from `d1` to `d2`.
    pub fn day_count(&self, d1: &Date, d2: &Date) -> (r: i32)
        ensures
            r == actual_days(d1@, d2@),
    {
        d2.serial_number() - d1.serial_number()
    }

    /// The coupon dates of the schedule with notional ones in place of irregular first and
    /// last periods (see [quasi_payment_dates]).
    pub fn get_list_of_period_dates_including_quasi_payments(&self) -> (r: Option<Vec<Date>>)
        ensures
            (match r {
                Some(v) => quasi_payment_dates(self.schedule@) == Some(serials(v@)),
                None => quasi_payment_dates(self.schedule@) is None,
            }),
    {
        let s = &self.schedule;
        let n = s.size();
        let issue = *s.date(0);
        let mut new_dates = s.dates();
        let tenor = s.tenor();
        let cal = s.calendar();
        let c = s.business_day_convention();
        let eom = s.end_of_month();
        let ghost d0 = serials(new_dates@);
        if !s.has_is_regular() || !s.is_regular(1) {
            let first_coupon = *s.date(1);
            let nf = match cal.checked_advance(first_coupon, -tenor.length, tenor.unit, c, eom) {
                None => {
                    return None;
                },
                Some(x) => x,
            };
            new_dates.set(0, nf);
            proof {
                assert(serials(new_dates@) =~= d0.update(0, nf@));
            }
            if nf.serial_number() > issue.serial_number() {
                let p = match cal.checked_advance(nf, -tenor.length, tenor.unit, c, eom) {
                    None => {
                        return None;
                    },
                    Some(x) => x,
                };
                let ghost d1 = serials(new_dates@);
                new_dates.insert(0, p);
                proof {
                    assert(serials(new_dates@) =~= seq![p@] + d1);
                }
            }
        }
        let ghost d1 = serials(new_dates@);
        if !s.has_is_regular() || !s.is_regular(n - 1) {
            let nl = match cal.checked_advance(*s.date(n - 2), tenor.length, tenor.unit, c, eom) {
                None => {
                    return None;
                },
                Some(x) => x,
            };
            new_dates.set(n - 1, nl);
            proof {
                assert(serials(new_dates@) =~= d1.update(n - 1, nl@));
            }
            if nl.serial_number() < s.end_date().serial_number() {
                let x = match cal.checked_advance(nl, tenor.length, tenor.unit, c, eom) {
                    None => {
                        return None;
                    },
                    Some(x) => x,
                };
                let ghost d2 = serials(new_dates@);
                new_dates.push(x);
                proof {
                    assert(serials(new_dates@) =~= d2.push(x@));
                }
            }
        }
        Some(new_dates)
    }

    /// The year fraction from `d1` to `d2` as a sum of terms (see [isma_terms]).
    pub fn year_fraction_terms(&self, d1: &Date, d2: &Date) -> (r: Option<YearFractionTerms>)
        ensures
            (match r {
                Some(v) => isma_terms(self.schedule@, d1@, d2@) == Some(term_values(v@)) && small_terms(v@),
                None => isma_terms(self.schedule@, d1@, d2@) is None,
            }),
    {
        if d1.serial_number() == d2.serial_number() {
            let v: YearFractionTerms = Vec::new();
            proof {
                assert(term_values(v@) =~= Seq::<(int, int)>::empty());
            }
            return Some(v);
        }
        let forward = d1.serial_number() < d2.serial_number();
        let (a, b) = if forward {
            (d1, d2)
        } else {
            (d2, d1)
        };
        let cd = match self.get_list_of_period_dates_including_quasi_payments() {
            None => {
                return None;
            },
            Some(cd) => cd,
        };
        proof {
            assert(serials(cd@).len() == cd.len());
        }
        if cd.len() == 0 {
            return None;
        }
        let lo = earliest_exec(&cd);
        let hi = latest_exec(&cd);
        if !(a.serial_number() >= lo.serial_number() && b.serial_number() <= hi.serial_number()) {
            return None;
        }
        let t = match isma_period_terms_exec(&cd, a, b, 0) {
            None => {
                return None;
            },
            Some(t) => t,
        };
        if forward {
            Some(t)
        } else {
            proof {
                assert forall|i: int| 0 <= i < t.len() implies t@[i].0 > i64::MIN by {
                    assert(-1_000_000_000_000 <= t@[i].0);
                }
            }
            Some(negate_terms(t))
        }
    }
}

/// Actual/Actual day count convention
///
/// The day count can be calculated according to:
/// * the ISDA convention, also known as "Actual/Actual (Historical)",  "Actual/Actual",
///   "Act/Act", and according to ISDA also "Actual/365", "Act/365", and "A/365";
/// * the ISMA and US Treasury convention, also known as "Actual/Actual (Bond)";
/// * the AFB convention, also known as "Actual/Actual (Euro)".
///
/// For more details, refer to
/// <https://www.isda.org/a/pIJEE/The-Actual-Actual-Day-Count-Fraction-1999.pdf>
#[derive(Clone)]
pub struct ActualActual {
    pub convention: ActualActualConvention,
}

#[derive(Clone)]
pub enum ActualActualConvention {
    ISMA(Box<ISMA>),
    OldISMA(OldISMA),
    ISDA(ISDA),
    AFB(AFB),
}

impl ActualActual {
    /// The name of the convention.
    pub open spec fn name_spec(&self) -> Seq<char> {
        match self.convention {
            ActualActualConvention::ISMA(_) => "Actual/Actual (ISMA)"@,
            ActualActualConvention::OldISMA(_) => "Actual/Actual (ISMA)"@,
            ActualActualConvention::ISDA(_) => "Actual/Actual (ISDA)"@,
            ActualActualConvention::AFB(_) => "Actual/Actual (AFB)"@,
        }
    }

    /// The year fraction of the convention as a sum of terms.
    pub open spec fn terms_spec(&self, d1: int, d2: int, rs: int, re: int) -> Option<
        Seq<(int, int)>,
    > {
        match self.convention {
            ActualActualConvention::ISMA(c) => isma_terms(c.schedule@, d1, d2),
            ActualActualConvention::OldISMA(_) => old_isma_terms(d1, d2, rs, re),
            ActualActualConvention::ISDA(_) => isda_terms(d1, d2),
            ActualActualConvention::AFB(_) => afb_terms(d1, d2),
        }
    }

    /// Return the name of the day counter
    pub fn name(&self) -> (r: String)
        ensures
            r@ == self.name_spec(),
    {
        match &self.convention {
            ActualActualConvention::ISMA(c) => c.name(),
            ActualActualConvention::OldISMA(c) => c.name(),
            ActualActualConvention::ISDA(c) => c.name(),
            ActualActualConvention::AFB(c) => c.name(),
        }
    }

    /// Returns the number of days between two dates.
    pub fn day_count(&self, d1: &Date, d2: &Date) -> (r: i32)
        ensures
            r == actual_days(d1@, d2@),
    {
        match &self.convention {
            ActualActualConvention::ISMA(c) => c.day_count(d1, d2),
            ActualActualConvention::OldISMA(c) => c.day_count(d1, d2),
            ActualActualConvention::ISDA(c) => c.day_count(d1, d2),
            ActualActualConvention::AFB(c) => c.day_count(d1, d2),
        }
    }

    /// Returns the period between two dates as a fraction of year, written as a sum of terms;
    /// `None` where the convention cannot measure it.
    pub fn year_fraction_terms(
        &self,
        d1: &Date,
        d2: &Date,
        ref_period_start: &Date,
        ref_period_end: &Date,
    ) -> (r: Option<YearFractionTerms>)
        ensures
            (match r {
                Some(v) => self.terms_spec(d1@, d2@, ref_period_start@, ref_period_end@) == Some(
                    term_values(v@),
                ) && small_terms(v@),
                None => self.terms_spec(d1@, d2@, ref_period_start@, ref_period_end@) is None,
            }),
    {
        match &self.convention {
            ActualActualConvention::ISMA(c) => c.year_fraction_terms(d1, d2),
            ActualActualConvention::OldISMA(c) => c.year_fraction_terms(
                d1,
                d2,
                ref_period_start,
                ref_period_end,
            ),
            ActualActualConvention::ISDA(c) => c.year_fraction_terms(d1, d2),
            ActualActualConvention::AFB(c) => c.year_fraction_terms(d1, d2),
        }
    }

    /// Create an instance of [ISMA] day counter
    pub fn actual_actual_isma(schedule: Schedule) -> (r: ISMA)
        ensures
            r.schedule@ == schedule@,
    {
        ISMA { schedule }
    }

    /// Create an instance of [OldISMA] day counter
    pub fn actual_actual_old_isma() -> OldISMA {
        OldISMA {}
    }
}

/// Negating the terms twice gives them back.
pub proof fn lemma_negated_twice(t: Seq<(int, int)>)
    ensures
        negated(negated(t)) == t,
{
    assert(negated(negated(t)) =~= t);
}

/// Swapping the dates of an actual/actual year fraction negates it: measuring from `d2` to
/// `d1` gives the opposite terms of measuring from `d1` to `d2`, and one is defined exactly
/// when the other is.
pub proof fn lemma_year_fraction_antisymmetric(dc: ActualActual, d1: int, d2: int, rs: int, re: int)
    ensures
        dc.terms_spec(d2, d1, rs, re) is Some <==> dc.terms_spec(d1, d2, rs, re) is Some,
        dc.terms_spec(d1, d2, rs, re) is Some ==> dc.terms_spec(d2, d1, rs, re).unwrap() == negated(
            dc.terms_spec(d1, d2, rs, re).unwrap(),
        ),
{
    if d1 == d2 {
        assert(negated(seq![]) =~= Seq::<(int, int)>::empty());
    } else if d1 < d2 {
        match dc.terms_spec(d1, d2, rs, re) {
            Some(t) => {},
            None => {},
        }
    } else {
        match dc.terms_spec(d2, d1, rs, re) {
            Some(t) => {
                lemma_negated_twice(t);
            },
            None => {},
        }
    }
}

/// The value of a sum of terms as one fraction (numerator, denominator): the terms added in
/// order, `n / d + a / b = (n * b + a * d) / (d * b)`.
pub open spec fn terms_sum(t: Seq<(int, int)>) -> (int, int)
    decreases t.len(),
{
    if t.len() == 0 {
        (0, 1)
    } else {
        let (n, d) = terms_sum(t.drop_last());
        let (a, b) = t.last();
        (n * b + a * d, d * b)
    }
}

/// The number of days of year `y`.
pub open spec fn days_in_year(y: int) -> int {
    if is_leap_year(y) {
        366
    } else {
        365
    }
}

/// Negating the terms negates their sum.
proof fn lemma_terms_sum_negated(t: Seq<(int, int)>)
    ensures
        terms_sum(negated(t)) == (-terms_sum(t).0, terms_sum(t).1),
    decreases t.len(),
{
    if t.len() > 0 {
        assert(negated(t).drop_last() =~= negated(t.drop_last()));
        lemma_terms_sum_negated(t.drop_last());
        let (n, d) = terms_sum(t.drop_last());
        let (a, b) = t.last();
        assert((-n) * b + (-a) * d == -(n * b + a * d)) by (nonlinear_arith);
    }
}

/// January 1st of the next year lies as many days after January 1st as the year has.
proof fn lemma_next_new_year(y: int)
    ensures
        serial_of(y + 1, 1, 1) - serial_of(y, 1, 1) == days_in_year(y),
{
    lemma_year_length(y);
}

/// The Actual/Actual (ISDA) year fraction from `d1` to `d2` counts each calendar year's days
/// over that year's length: it is the position of `d2` less that of `d1`, where a date's
/// position is its year plus the days since that year's January 1st over the year's length.
/// In particular from January 1st of one year to January 1st of a later one it is the
/// number of years between them.
pub proof fn lemma_isda_year_fraction(d1: int, d2: int)
    requires
        is_valid_serial(d1),
        is_valid_serial(d2),
        isda_terms(d1, d2) is Some,
    ensures
        ({
            let (num, den) = terms_sum(isda_terms(d1, d2).unwrap());
            let y1 = year_of_serial(d1);
            let y2 = year_of_serial(d2);
            let l1 = days_in_year(y1);
            let l2 = days_in_year(y2);
            &&& den > 0
            &&& num * (l1 * l2) == den * ((y2 - y1) * l1 * l2 + (d2 - serial_of(y2, 1, 1)) * l1
                - (d1 - serial_of(y1, 1, 1)) * l2)
        }),
{
    let y1 = year_of_serial(d1);
    let y2 = year_of_serial(d2);
    let l1 = days_in_year(y1);
    let l2 = days_in_year(y2);
    let j1 = serial_of(y1, 1, 1);
    let j2 = serial_of(y2, 1, 1);
    if d1 == d2 {
        assert(isda_terms(d1, d2).unwrap() =~= Seq::<(int, int)>::empty());
        assert(terms_sum(Seq::<(int, int)>::empty()) == (0int, 1int));
        lemma_zero_position_difference(d1, y1, l1, j1);
    } else {
        let (a, b) = if d1 < d2 {
            (d1, d2)
        } else {
            (d2, d1)
        };
        let ya = year_of_serial(a);
        let yb = year_of_serial(b);
        let la = days_in_year(ya);
        let lb = days_in_year(yb);
        let ja = serial_of(ya, 1, 1);
        let jb = serial_of(yb, 1, 1);
        lemma_next_new_year(ya);
        let t0 = Seq::<(int, int)>::empty();
        let t1 = t0.push((yb - ya - 1, 1int));
        let t2 = t1.push((actual_days(a, serial_of(ya + 1, 1, 1)), la));
        let t = t2.push((actual_days(serial_of(yb, 1, 1), b), lb));
        assert(t1.drop_last() =~= t0);
        assert(t2.drop_last() =~= t1);
        assert(t.drop_last() =~= t2);
        assert(terms_sum(t0) == (0int, 1int));
        let x = ja + la - a;
        let z = b - jb;
        lemma_sum_step(0, 1, yb - ya - 1, 1);
        assert(terms_sum(t1) == (yb - ya - 1, 1int));
        lemma_sum_step(yb - ya - 1, 1, x, la);
        assert(terms_sum(t2) == ((yb - ya - 1) * la + x, la));
        let pa = (yb - ya) * la * lb + (b - jb) * la - (a - ja) * lb;
        lemma_isda_sum(ya, yb, la, lb, ja, jb, a, b, x, z, pa);
        assert(terms_sum(t) == (pa, la * lb));
        if d1 < d2 {
            assert(isda_terms(d1, d2).unwrap() =~= t);
        } else {
            assert(isda_terms(d1, d2).unwrap() =~= negated(t));
            lemma_terms_sum_negated(t);
            lemma_swapped_positions(ya, yb, la, lb, ja, jb, a, b, pa);
        }
    }
}

proof fn lemma_zero_position_difference(d: int, y: int, l: int, j: int)
    ensures
        0 * (l * l) == 1 * ((y - y) * l * l + (d - j) * l - (d - j) * l),
{
    assert(0 * (l * l) == 1 * ((y - y) * l * l + (d - j) * l - (d - j) * l)) by (nonlinear_arith);
}

proof fn lemma_sum_step(n: int, d: int, a: int, b: int)
    ensures
        n * b + a * d == (if d == 1 && n == 0 && b == 1 {
            a
        } else {
            n * b + a * d
        }),
        d == 1 ==> n * b + a * d == n * b + a,
        d == 1 && b == 1 ==> n * b + a * d == n + a,
        d * b == (if d == 1 {
            b
        } else {
            d * b
        }),
{
    assert(d == 1 ==> n * b + a * d == n * b + a) by (nonlinear_arith);
    assert(d == 1 && b == 1 ==> n * b + a * d == n + a) by (nonlinear_arith);
    assert(d == 1 ==> d * b == b) by (nonlinear_arith);
    assert(d == 1 && n == 0 && b == 1 ==> n * b + a * d == a) by (nonlinear_arith);
}

proof fn lemma_isda_sum(
    ya: int,
    yb: int,
    la: int,
    lb: int,
    ja: int,
    jb: int,
    a: int,
    b: int,
    x: int,
    z: int,
    pa: int,
)
    requires
        x == ja + la - a,
        z == b - jb,
        pa == (yb - ya) * la * lb + (b - jb) * la - (a - ja) * lb,
        la > 0,
        lb > 0,
    ensures
        ((yb - ya - 1) * la + x) * lb + z * la == pa,
        la * lb > 0,
        pa * (la * lb) == (la * lb) * pa,
{
    assert(((yb - ya - 1) * la + x) * lb + z * la == pa) by (nonlinear_arith)
        requires
            x == ja + la - a,
            z == b - jb,
            pa == (yb - ya) * la * lb + (b - jb) * la - (a - ja) * lb,
    ;
    assert(la * lb > 0) by (nonlinear_arith)
        requires
            la > 0,
            lb > 0,
    ;
    assert(pa * (la * lb) == (la * lb) * pa) by (nonlinear_arith);
}

proof fn lemma_swapped_positions(
    ya: int,
    yb: int,
    la: int,
    lb: int,
    ja: int,
    jb: int,
    a: int,
    b: int,
    pa: int,
)
    requires
        pa == (yb - ya) * la * lb + (b - jb) * la - (a - ja) * lb,
    ensures
        (-pa) * (lb * la) == (la * lb) * ((ya - yb) * lb * la + (a - ja) * lb - (b - jb) * la),
{
    assert((-pa) * (lb * la) == (la * lb) * ((ya - yb) * lb * la + (a - ja) * lb - (b - jb)
        * la)) by (nonlinear_arith)
        requires
            pa == (yb - ya) * la * lb + (b - jb) * la - (a - ja) * lb,
    ;
}

} // verus!
