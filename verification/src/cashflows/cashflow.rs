use vstd::prelude::*;

use crate::cashflows::fixedratecouponbuilder::CouponPeriod;
use crate::datetime::date::{Date, MINIMUM_SERIAL_NUMBER};
use crate::datetime::daycounter::DayCounter;
use crate::datetime::daycounters::actualactual::{
    concat_terms, negate_terms, negated, term_values, YearFractionTerms,
};
use crate::datetime::schedule::checked_shift;
use crate::datetime::schedule_rules::{null_serial, shifted};
use crate::datetime::timeunit::TimeUnit;

verus! {

/// Whether a cash flow paid on the date with serial number `cf` has occurred by the reference
/// date `r`: before it, or on it when the reference date itself is not included.
pub open spec fn has_occurred_spec(cf: int, r: int, include_ref_date: bool) -> bool {
    if include_ref_date {
        cf < r
    } else {
        cf <= r
    }
}

/// Returns true if a cash flow paid on `cashflow_date` has already occurred by `ref_date`.
pub fn has_occurred(cashflow_date: &Date, ref_date: &Date, include_ref_date: bool) -> (r: bool)
    ensures
        r == has_occurred_spec(cashflow_date@, ref_date@, include_ref_date),
{
    // easy and quick handling of most cases
    if ref_date.serial_number() != MINIMUM_SERIAL_NUMBER {
        if ref_date.serial_number() < cashflow_date.serial_number() {
            return false;
        }
        if cashflow_date.serial_number() < ref_date.serial_number() {
            return true;
        }
    }
    if include_ref_date {
        cashflow_date.serial_number() < ref_date.serial_number()
    } else {
        cashflow_date.serial_number() <= ref_date.serial_number()
    }
}

/// Returns true if a cash flow with the given ex-coupon date trades ex-coupon on `ref_date`;
/// never when the ex-coupon date is the null date.
pub fn trading_ex_coupon(ex_coupon_date: &Date, ref_date: &Date) -> (r: bool)
    ensures
        r == (ex_coupon_date@ != null_serial() && ex_coupon_date@ <= ref_date@),
{
    if ex_coupon_date.serial_number() == MINIMUM_SERIAL_NUMBER {
        return false;
    }
    ex_coupon_date.serial_number() <= ref_date.serial_number()
}

/// The reference period that a cash flow paid on `cf` is discounted over, from its own
/// reference period: when it has none (both ends null), the stretch from the previous
/// payment `last` to `cf`, or, without a previous payment (`last` equal to the npv date), the
/// year before `cf`.  `None` when that year begins before the range of dates.
pub open spec fn stepwise_reference(
    cf: int,
    ref_start: int,
    ref_end: int,
    npv_date: int,
    last: int,
) -> Option<(int, int)> {
    if ref_start == null_serial() && ref_end == null_serial() {
        if last == npv_date {
            match shifted(cf, -1, TimeUnit::Years) {
                None => None,
                Some(t) => Some((t, cf)),
            }
        } else {
            Some((last, cf))
        }
    } else {
        Some((ref_start, ref_end))
    }
}

/// The time, as a sum of year-fraction terms, over which a cash flow paid on `cf` is
/// discounted from the previous payment `last`: with an accrual start other than the null
/// date and `last`, its full coupon period less the part accrued by `last`; else the year
/// fraction from `last` to `cf`; both measured with the reference period of
/// [stepwise_reference].  `None` when a date leaves the range or the day counter cannot
/// measure a stretch.
pub open spec fn stepwise_discount_terms_spec(
    dc: DayCounter,
    cf: int,
    accrual_start: int,
    ref_start: int,
    ref_end: int,
    npv_date: int,
    last: int,
) -> Option<Seq<(int, int)>> {
    match stepwise_reference(cf, ref_start, ref_end, npv_date, last) {
        None => None,
        Some((rs, re)) => if accrual_start != null_serial() && last != accrual_start {
            match dc.terms_spec(accrual_start, cf, rs, re) {
                None => None,
                Some(coupon) => match dc.terms_spec(accrual_start, last, rs, re) {
                    None => None,
                    Some(accrued) => Some(coupon + negated(accrued)),
                },
            }
        } else {
            dc.terms_spec(last, cf, rs, re)
        },
    }
}

/// The stepwise discount time of a cash flow paid on `cashflow`, with the given accrual
/// start and reference period (null dates where the cash flow has none), from the previous
/// payment `last_date`, as a sum of year-fraction terms (see [stepwise_discount_terms_spec]).
pub fn stepwise_discount_terms(
    dc: &DayCounter,
    cashflow: &Date,
    accrual_start: &Date,
    ref_start: &Date,
    ref_end: &Date,
    npv_date: &Date,
    last_date: &Date,
) -> (r: Option<YearFractionTerms>)
    ensures
        (match r {
            Some(v) => stepwise_discount_terms_spec(
                *dc,
                cashflow@,
                accrual_start@,
                ref_start@,
                ref_end@,
                npv_date@,
                last_date@,
            ) == Some(term_values(v@)),
            None => stepwise_discount_terms_spec(
                *dc,
                cashflow@,
                accrual_start@,
                ref_start@,
                ref_end@,
                npv_date@,
                last_date@,
            ) is None,
        }),
{
    let (rs, re) = if ref_start.serial_number() == MINIMUM_SERIAL_NUMBER
        && ref_end.serial_number() == MINIMUM_SERIAL_NUMBER {
        if last_date.serial_number() == npv_date.serial_number() {
            match checked_shift(*cashflow, -1, TimeUnit::Years) {
                None => {
                    return None;
                },
                Some(t) => (t, *cashflow),
            }
        } else {
            (*last_date, *cashflow)
        }
    } else {
        (*ref_start, *ref_end)
    };
    if accrual_start.serial_number() != MINIMUM_SERIAL_NUMBER && last_date.serial_number()
        != accrual_start.serial_number() {
        let coupon = match dc.year_fraction_terms(accrual_start, cashflow, &rs, &re) {
            None => {
                return None;
            },
            Some(c) => c,
        };
        let accrued = match dc.year_fraction_terms(accrual_start, last_date, &rs, &re) {
            None => {
                return None;
            },
            Some(a) => a,
        };
        proof {
            assert forall|i: int| 0 <= i < accrued.len() implies accrued@[i].0 > i64::MIN by {
                assert(-1_000_000_000_000 <= accrued@[i].0);
            }
        }
        let neg = negate_terms(accrued);
        Some(concat_terms(coupon, neg))
    } else {
        dc.year_fraction_terms(last_date, cashflow, &rs, &re)
    }
}

/// The index of the first coupon of the leg from index `i` on that has not occurred by
/// `settlement` (see [has_occurred_spec]).
pub open spec fn next_cashflow_from(
    leg: Seq<CouponPeriod>,
    include_settlement_date_flows: bool,
    settlement: int,
    i: int,
) -> Option<int>
    decreases leg.len() - i,
{
    if i < 0 || i >= leg.len() {
        None
    } else if !has_occurred_spec(leg[i].payment_date@, settlement, include_settlement_date_flows) {
        Some(i)
    } else {
        next_cashflow_from(leg, include_settlement_date_flows, settlement, i + 1)
    }
}

/// The index of the first coupon of the leg that has not occurred by `settlement`.
pub open spec fn next_cashflow_index(
    leg: Seq<CouponPeriod>,
    include_settlement_date_flows: bool,
    settlement: int,
) -> Option<int> {
    next_cashflow_from(leg, include_settlement_date_flows, settlement, 0)
}

proof fn lemma_next_cashflow_from(
    leg: Seq<CouponPeriod>,
    incl: bool,
    settlement: int,
    k: int,
    i: int,
)
    requires
        0 <= k <= i < leg.len(),
        forall|j: int|
            k <= j < i ==> has_occurred_spec(#[trigger] leg[j].payment_date@, settlement, incl),
        !has_occurred_spec(leg[i].payment_date@, settlement, incl),
    ensures
        next_cashflow_from(leg, incl, settlement, k) == Some(i),
    decreases i - k,
{
    if k < i {
        lemma_next_cashflow_from(leg, incl, settlement, k + 1, i);
    }
}

proof fn lemma_no_next_cashflow_from(leg: Seq<CouponPeriod>, incl: bool, settlement: int, k: int)
    requires
        0 <= k <= leg.len(),
        forall|j: int|
            k <= j < leg.len() ==> has_occurred_spec(
                #[trigger] leg[j].payment_date@,
                settlement,
                incl,
            ),
    ensures
        next_cashflow_from(leg, incl, settlement, k) is None,
    decreases leg.len() - k,
{
    if k < leg.len() {
        lemma_no_next_cashflow_from(leg, incl, settlement, k + 1);
    }
}

/// The index of the first coupon of the leg that has not occurred by the settlement date
/// (see [has_occurred_spec]); `None` when all of them have.
pub fn next_cashflow(
    leg: &Vec<CouponPeriod>,
    include_settlement_date_flows: bool,
    settlement_date: &Date,
) -> (r: Option<usize>)
    ensures
        (match r {
            Some(i) => i < leg.len() && !has_occurred_spec(
                leg@[i as int].payment_date@,
                settlement_date@,
                include_settlement_date_flows,
            ) && forall|j: int|
                0 <= j < i ==> has_occurred_spec(
                    #[trigger] leg@[j].payment_date@,
                    settlement_date@,
                    include_settlement_date_flows,
                ),
            None => forall|j: int|
                0 <= j < leg.len() ==> has_occurred_spec(
                    #[trigger] leg@[j].payment_date@,
                    settlement_date@,
                    include_settlement_date_flows,
                ),
        }),
{
    let mut i: usize = 0;
    while i < leg.len()
        invariant
            i <= leg.len(),
            forall|j: int|
                0 <= j < i ==> has_occurred_spec(
                    #[trigger] leg@[j].payment_date@,
                    settlement_date@,
                    include_settlement_date_flows,
                ),
        decreases leg.len() - i,
    {
        if !has_occurred(&leg[i].payment_date, settlement_date, include_settlement_date_flows) {
            return Some(i);
        }
        i = i + 1;
    }
    None
}

/// The maturity of a leg: the latest end of accrual of its coupons.
pub fn maturity_date(leg: &Vec<CouponPeriod>) -> (r: Date)
    requires
        leg.len() > 0,
    ensures
        forall|i: int| 0 <= i < leg.len() ==> (#[trigger] leg@[i]).accrual_end_date@ <= r@,
        exists|i: int| 0 <= i < leg.len() && r@ == (#[trigger] leg@[i]).accrual_end_date@,
{
    let mut d = leg[0].accrual_end_date;
    let mut i: usize = 1;
    while i < leg.len()
        invariant
            1 <= i <= leg.len(),
            forall|j: int| 0 <= j < i ==> (#[trigger] leg@[j]).accrual_end_date@ <= d@,
            exists|j: int| 0 <= j < i && d@ == (#[trigger] leg@[j]).accrual_end_date@,
        decreases leg.len() - i,
    {
        if leg[i].accrual_end_date.serial_number() > d.serial_number() {
            d = leg[i].accrual_end_date;
        }
        i = i + 1;
    }
    d
}

impl CouponPeriod {
    /// The days of the coupon's accrual period, counted by its day counter.
    pub fn accrual_days(&self, dc: &DayCounter) -> (r: i32)
        ensures
            r == dc.day_count_spec(self.accrual_start_date@, self.accrual_end_date@),
    {
        dc.day_count(&self.accrual_start_date, &self.accrual_end_date)
    }

    /// The days the coupon has accrued on `date`, counted by its day counter: none on or
    /// before the start of accrual or after the payment date, else those from the start of
    /// accrual to `date` or, when earlier, the end of accrual.
    pub fn accrued_days(&self, dc: &DayCounter, date: &Date) -> (r: i32)
        ensures
            r == (if date@ <= self.accrual_start_date@ || date@ > self.payment_date@ {
                0
            } else if date@ <= self.accrual_end_date@ {
                dc.day_count_spec(self.accrual_start_date@, date@)
            } else {
                dc.day_count_spec(self.accrual_start_date@, self.accrual_end_date@)
            }),
    {
        if date.serial_number() <= self.accrual_start_date.serial_number()
            || date.serial_number() > self.payment_date.serial_number() {
            0
        } else if date.serial_number() <= self.accrual_end_date.serial_number() {
            dc.day_count(&self.accrual_start_date, date)
        } else {
            dc.day_count(&self.accrual_start_date, &self.accrual_end_date)
        }
    }
}

/// The days accrued on `date` by the next coupon of the leg that has not occurred by then
/// (see [next_cashflow]), each coupon counted by its own day counter; none when every coupon
/// has occurred.
pub fn accrued_days(
    leg: &Vec<CouponPeriod>,
    day_counters: &Vec<DayCounter>,
    include_settlement_date_flows: bool,
    date: &Date,
) -> (r: i32)
    requires
        day_counters.len() == leg.len(),
    ensures
        (match next_cashflow_index(leg@, include_settlement_date_flows, date@) {
            Some(i) => {
                let c = leg@[i];
                r == (if date@ <= c.accrual_start_date@ || date@ > c.payment_date@ {
                    0
                } else if date@ <= c.accrual_end_date@ {
                    day_counters@[i].day_count_spec(c.accrual_start_date@, date@)
                } else {
                    day_counters@[i].day_count_spec(c.accrual_start_date@, c.accrual_end_date@)
                })
            },
            None => r == 0,
        }),
{
    match next_cashflow(leg, include_settlement_date_flows, date) {
        Some(i) => {
            proof {
                lemma_next_cashflow_from(leg@, include_settlement_date_flows, date@, 0, i as int);
            }
            leg[i].accrued_days(&day_counters[i], date)
        },
        None => {
            proof {
                lemma_no_next_cashflow_from(leg@, include_settlement_date_flows, date@, 0);
            }
            0
        },
    }
}

} // verus!
