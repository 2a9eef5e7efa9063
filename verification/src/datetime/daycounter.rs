use vstd::prelude::*;

use crate::datetime::date::Date;
use crate::datetime::daycounters::actualactual::{
    small_terms, term_values, ActualActual, YearFractionTerms,
};
use crate::datetime::daycounters::one::One;
use crate::datetime::daycounters::thirty360::Thirty360;
use crate::datetime::daycounters::thirty365::{thirty365_day_count, Thirty365};

verus! {

/// A day count convention: how days between two dates are counted and turned into a fraction
/// of a year.
#[derive(Clone)]
pub enum DayCounter {
    ActualActual(ActualActual),
    Thirty360(Thirty360),
    Thirty365(Thirty365),
    One(One),
}

impl DayCounter {
    /// The day count from the date with serial number `d1` to the one with serial number `d2`.
    pub open spec fn day_count_spec(&self, d1: int, d2: int) -> int {
        match self {
            DayCounter::ActualActual(_) => d2 - d1,
            DayCounter::Thirty360(c) => c.day_count_spec(d1, d2),
            DayCounter::Thirty365(_) => thirty365_day_count(d1, d2),
            DayCounter::One(_) => if d2 >= d1 {
                1int
            } else {
                -1int
            },
        }
    }

    /// The year fraction from `d1` to `d2` with the reference period from `rs` to `re`, as a
    /// sum of terms: the Actual/Actual terms, or the day count over 360, 365 or 1.
    pub open spec fn terms_spec(&self, d1: int, d2: int, rs: int, re: int) -> Option<
        Seq<(int, int)>,
    > {
        match self {
            DayCounter::ActualActual(c) => c.terms_spec(d1, d2, rs, re),
            DayCounter::Thirty360(_) => Some(seq![(self.day_count_spec(d1, d2), 360int)]),
            DayCounter::Thirty365(_) => Some(seq![(self.day_count_spec(d1, d2), 365int)]),
            DayCounter::One(_) => Some(seq![(self.day_count_spec(d1, d2), 1int)]),
        }
    }

    /// The name of the convention.
    pub open spec fn name_spec(&self) -> Seq<char> {
        match self {
            DayCounter::ActualActual(c) => c.name_spec(),
            DayCounter::Thirty360(c) => c.name_spec(),
            DayCounter::Thirty365(_) => "30/365"@,
            DayCounter::One(_) => "1/1"@,
        }
    }

    /// Return the name of the day counter
    pub fn name(&self) -> (r: String)
        ensures
            r@ == self.name_spec(),
    {
        match self {
            DayCounter::ActualActual(c) => c.name(),
            DayCounter::Thirty360(c) => c.name(),
            DayCounter::Thirty365(c) => c.name(),
            DayCounter::One(c) => c.name(),
        }
    }

    /// Returns the number of days between two dates.
    pub fn day_count(&self, d1: &Date, d2: &Date) -> (r: i32)
        ensures
            r == self.day_count_spec(d1@, d2@),
    {
        match self {
            DayCounter::ActualActual(c) => c.day_count(d1, d2),
            DayCounter::Thirty360(c) => c.day_count(d1, d2),
            DayCounter::Thirty365(c) => c.day_count(d1, d2),
            DayCounter::One(c) => c.day_count(d1, d2),
        }
    }

    /// Returns the period from `d1` to `d2` as a fraction of a year, written as a sum of terms
    /// (see [DayCounter::terms_spec]); `None` where the convention cannot measure it.
    pub fn year_fraction_terms(
        &self,
        d1: &Date,
        d2: &Date,
        ref_period_start: &Date,
        ref_period_end: &Date,
    ) -> (r: Option<YearFractionTerms>)
        ensures
            (match r {
                Some(v) => self.terms_spec(d1@, d2@, ref_period_start@, ref_period_end@) == Some(
                    term_values(v@),
                ) && small_terms(v@),
                None => self.terms_spec(d1@, d2@, ref_period_start@, ref_period_end@) is None,
            }),
    {
        let den: i64 = match self {
            DayCounter::ActualActual(c) => {
                return c.year_fraction_terms(d1, d2, ref_period_start, ref_period_end);
            },
            DayCounter::Thirty360(_) => 360,
            DayCounter::Thirty365(_) => 365,
            DayCounter::One(_) => 1,
        };
        let n = self.day_count(d1, d2) as i64;
        let mut v: YearFractionTerms = Vec::new();
        v.push((n, den));
        proof {
            assert(term_values(v@) =~= seq![(n as int, den as int)]);
        }
        Some(v)
    }
}

} // verus!
