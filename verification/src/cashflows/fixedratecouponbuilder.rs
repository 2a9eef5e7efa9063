use vstd::prelude::*;

use crate::datetime::businessdayconvention::BusinessDayConvention;
use crate::datetime::calendar::Calendar;
use crate::datetime::date::{Date, MINIMUM_SERIAL_NUMBER};
use crate::datetime::period::Period;
use crate::datetime::schedule::Schedule;
use crate::datetime::schedule_rules::{null_serial, ScheduleModel};
use crate::datetime::timeunit::TimeUnit;

verus! {

/// Which day counter a coupon of a fixed rate leg uses: the first period's (when one is
/// given, else its rate's), its rate's own, or the last period's (when one is given, else its
/// rate's).
#[derive(Clone, Copy, Debug, PartialEq, Eq, Structural)]
pub enum CouponDayCounter {
    FirstPeriod,
    Rate,
    LastPeriod,
}

/// When coupons are paid: the payment calendar (the schedule's by default), the business day
/// adjustment (following by default) and the lag in business days (0 by default).
#[derive(Clone, Copy, Debug)]
pub struct PaymentSettings {
    pub calendar: Option<Calendar>,
    pub adjustment: Option<BusinessDayConvention>,
    pub lag: Option<i32>,
}

/// When coupons go ex-coupon: a period before the payment date, counted in a calendar with a
/// business day adjustment and end-of-month rule.  Without a period, coupons have no
/// ex-coupon date.
#[derive(Clone, Copy, Debug)]
pub struct ExCouponSettings {
    pub period: Option<Period>,
    pub calendar: Option<Calendar>,
    pub adjustment: Option<BusinessDayConvention>,
    pub end_of_month: Option<bool>,
}

/// The dates of one coupon of a fixed rate leg, and which rate, notional and day counter it
/// takes.
#[derive(Clone, Copy, Debug)]
pub struct CouponPeriod {
    pub payment_date: Date,
    pub accrual_start_date: Date,
    pub accrual_end_date: Date,
    pub reference_period_start: Date,
    pub reference_period_end: Date,
    pub ex_coupon_date: Date,
    pub rate_index: usize,
    pub notional_index: usize,
    pub day_counter: CouponDayCounter,
}

/// A coupon period with dates as serial numbers.
pub struct CouponModel {
    pub payment_date: int,
    pub accrual_start_date: int,
    pub accrual_end_date: int,
    pub reference_period_start: int,
    pub reference_period_end: int,
    pub ex_coupon_date: int,
    pub rate_index: int,
    pub notional_index: int,
    pub day_counter: CouponDayCounter,
}

impl CouponPeriod {
    pub open spec fn model(self) -> CouponModel {
        CouponModel {
            payment_date: self.payment_date@,
            accrual_start_date: self.accrual_start_date@,
            accrual_end_date: self.accrual_end_date@,
            reference_period_start: self.reference_period_start@,
            reference_period_end: self.reference_period_end@,
            ex_coupon_date: self.ex_coupon_date@,
            rate_index: self.rate_index as int,
            notional_index: self.notional_index as int,
            day_counter: self.day_counter,
        }
    }
}

/// Why the coupons of a fixed rate leg cannot be laid out.
#[derive(Clone, Copy, Debug, PartialEq, Eq, Structural)]
pub enum CouponError {
    /// There is no coupon rate.
    NoCouponRates,
    /// There is no notional.
    NoNotionals,
    /// An ex-coupon period was given without a business day adjustment.
    MissingExCouponAdjustment,
    /// An ex-coupon period was given without an end-of-month rule.
    MissingExCouponEndOfMonth,
    /// An ex-coupon period was given without a calendar.
    MissingExCouponCalendar,
    /// A date would leave the range of dates.
    DateOutOfRange,
}

/// The payment date of a coupon whose accrual ends on the date with serial number `end`.
pub open spec fn payment_date_spec(m: ScheduleModel, pay: PaymentSettings, end: int) -> Option<int> {
    let cal = match pay.calendar {
        Some(c) => c,
        None => m.calendar,
    };
    let adjustment = match pay.adjustment {
        Some(a) => a,
        None => BusinessDayConvention::Following,
    };
    let lag = match pay.lag {
        Some(l) => l,
        None => 0i32,
    };
    cal.advanced(end, lag as int, TimeUnit::Days, adjustment, false)
}

/// The ex-coupon date of a coupon paid on the date with serial number `payment`: the
/// ex-coupon period before it, or the null date without an ex-coupon period.
pub open spec fn ex_coupon_date_spec(ex: ExCouponSettings, payment: int) -> Result<int, CouponError> {
    match ex.period {
        None => Ok(null_serial()),
        Some(p) => match ex.adjustment {
            None => Err(CouponError::MissingExCouponAdjustment),
            Some(adjustment) => match ex.end_of_month {
                None => Err(CouponError::MissingExCouponEndOfMonth),
                Some(eom) => match ex.calendar {
                    None => Err(CouponError::MissingExCouponCalendar),
                    Some(cal) => if p.length == i32::MIN {
                        Err(CouponError::DateOutOfRange)
                    } else {
                        match cal.advanced(payment, -p.length, p.unit, adjustment, eom) {
                            None => Err(CouponError::DateOutOfRange),
                            Some(d) => Ok(d),
                        }
                    },
                },
            },
        },
    }
}

/// The `k`-th coupon of a leg on the schedule: it accrues over the `k`-th period, from the
/// schedule's `k`-th date to its `k + 1`-th; the first has a reference period one tenor long
/// ending with it when that period is irregular, and the last one, when its period is
/// irregular, a reference period one tenor long starting with it.  A coupon takes the `k`-th
/// rate and notional, or the last ones given when there are fewer.
#[verifier::opaque]
pub open spec fn coupon_spec(
    m: ScheduleModel,
    pay: PaymentSettings,
    ex: ExCouponSettings,
    n_rates: int,
    n_notionals: int,
    k: int,
) -> Result<CouponModel, CouponError> {
    let n = m.dates.len() as int;
    let start = m.dates[k];
    let end = m.dates[k + 1];
    match payment_date_spec(m, pay, end) {
        None => Err(CouponError::DateOutOfRange),
        Some(payment) => match ex_coupon_date_spec(ex, payment) {
            Err(e) => Err(e),
            Ok(ex_coupon) => {
                let rate_index = if k < n_rates {
                    k
                } else {
                    n_rates - 1
                };
                let notional_index = if k < n_notionals {
                    k
                } else {
                    n_notionals - 1
                };
                let tenor_length = m.tenor.length as int;
                let reference: Option<(int, int)> = if k == 0 {
                    if m.is_regular.len() > 0 && !m.is_regular[0] {
                        match m.calendar.advanced(
                            end,
                            -tenor_length,
                            m.tenor.unit,
                            m.convention,
                            m.end_of_month,
                        ) {
                            None => None,
                            Some(r) => Some((r, end)),
                        }
                    } else {
                        Some((start, end))
                    }
                } else if k == n - 2 {
                    if m.is_regular.len() > 0 && m.is_regular[n - 2] {
                        Some((start, end))
                    } else {
                        match m.calendar.advanced(
                            start,
                            tenor_length,
                            m.tenor.unit,
                            m.convention,
                            m.end_of_month,
                        ) {
                            None => None,
                            Some(r) => Some((start, r)),
                        }
                    }
                } else {
                    Some((start, end))
                };
                match reference {
                    None => Err(CouponError::DateOutOfRange),
                    Some((rs, re)) => Ok(
                        CouponModel {
                            payment_date: payment,
                            accrual_start_date: start,
                            accrual_end_date: end,
                            reference_period_start: rs,
                            reference_period_end: re,
                            ex_coupon_date: ex_coupon,
                            rate_index,
                            notional_index,
                            day_counter: if k == 0 {
                                CouponDayCounter::FirstPeriod
                            } else if k == n - 2 {
                                CouponDayCounter::LastPeriod
                            } else {
                                CouponDayCounter::Rate
                            },
                        },
                    ),
                }
            },
        },
    }
}

/// The coupons of the leg from the `k`-th on, stopping at the first that cannot be laid out.
pub open spec fn coupons_from(
    m: ScheduleModel,
    pay: PaymentSettings,
    ex: ExCouponSettings,
    n_rates: int,
    n_notionals: int,
    k: int,
) -> Result<Seq<CouponModel>, CouponError>
    decreases m.dates.len() - 1 - k,
{
    if k < 0 || k >= m.dates.len() - 1 {
        Ok(seq![])
    } else {
        match coupon_spec(m, pay, ex, n_rates, n_notionals, k) {
            Err(e) => Err(e),
            Ok(c) => match coupons_from(m, pay, ex, n_rates, n_notionals, k + 1) {
                Err(e) => Err(e),
                Ok(rest) => Ok(seq![c] + rest),
            },
        }
    }
}

/// The coupons of a fixed rate leg on the schedule: one per period.
pub open spec fn coupon_periods_spec(
    m: ScheduleModel,
    pay: PaymentSettings,
    ex: ExCouponSettings,
    n_rates: int,
    n_notionals: int,
) -> Result<Seq<CouponModel>, CouponError> {
    if n_rates <= 0 {
        Err(CouponError::NoCouponRates)
    } else if n_notionals <= 0 {
        Err(CouponError::NoNotionals)
    } else {
        coupons_from(m, pay, ex, n_rates, n_notionals, 0)
    }
}

#[verifier::rlimit(100)]
proof fn lemma_coupons_from(
    m: ScheduleModel,
    pay: PaymentSettings,
    ex: ExCouponSettings,
    n_rates: int,
    n_notionals: int,
    k: int,
)
    requires
        0 <= k <= m.dates.len() - 1,
        coupons_from(m, pay, ex, n_rates, n_notionals, k) is Ok,
    ensures
        coupons_from(m, pay, ex, n_rates, n_notionals, k).unwrap().len() == m.dates.len() - 1 - k,
        forall|j: int|
            #![trigger coupons_from(m, pay, ex, n_rates, n_notionals, k).unwrap()[j]]
            0 <= j < m.dates.len() - 1 - k ==> coupon_spec(m, pay, ex, n_rates, n_notionals, k + j)
                == Ok::<CouponModel, CouponError>(
                coupons_from(m, pay, ex, n_rates, n_notionals, k).unwrap()[j],
            ),
    decreases m.dates.len() - 1 - k,
{
    if k < m.dates.len() - 1 {
        lemma_coupons_from(m, pay, ex, n_rates, n_notionals, k + 1);
        let rest = coupons_from(m, pay, ex, n_rates, n_notionals, k + 1).unwrap();
        let c = coupon_spec(m, pay, ex, n_rates, n_notionals, k).unwrap();
        let v = coupons_from(m, pay, ex, n_rates, n_notionals, k).unwrap();
        assert(v == seq![c] + rest);
        assert forall|j: int| 0 <= j < m.dates.len() - 1 - k implies coupon_spec(
            m,
            pay,
            ex,
            n_rates,
            n_notionals,
            k + j,
        ) == Ok::<CouponModel, CouponError>(v[j]) by {
            if j > 0 {
                assert(v[j] == rest[j - 1]);
                assert(k + 1 + (j - 1) == k + j);
            }
        }
    }
}

/// The coupons of a fixed rate leg, one per period of the schedule: the `k`-th accrues from
/// the schedule's `k`-th date to its next one and is paid on the payment calendar's advance
/// of its accrual end by the payment lag; its reference period is its accrual period, except
/// that an irregular first period is measured against the tenor ending with it (the
/// schedule calendar's advance of its end by minus one tenor, with the schedule convention
/// and end-of-month flag) and an irregular last period against the tenor starting with it;
/// it takes the `k`-th rate and notional (the last ones given when there are fewer), the
/// first period's day counter for the first period, the last period's for the last one, and
/// the rate's otherwise; without an ex-coupon period its ex-coupon date is the null date.
#[verifier::rlimit(100)]
pub proof fn lemma_coupon_periods(
    m: ScheduleModel,
    pay: PaymentSettings,
    ex: ExCouponSettings,
    n_rates: int,
    n_notionals: int,
)
    requires
        m.dates.len() >= 2,
        m.is_regular.len() + 1 == m.dates.len(),
        coupon_periods_spec(m, pay, ex, n_rates, n_notionals) is Ok,
    ensures
        ({
            let v = coupon_periods_spec(m, pay, ex, n_rates, n_notionals).unwrap();
            let n = m.dates.len() as int;
            let t = m.tenor.length as int;
            &&& v.len() == n - 1
            &&& forall|k: int|
                #![trigger v[k]]
                0 <= k < n - 1 ==> {
                    let c = v[k];
                    &&& c.accrual_start_date == m.dates[k]
                    &&& c.accrual_end_date == m.dates[k + 1]
                    &&& Some(c.payment_date) == (match pay.calendar {
                        Some(cal) => cal,
                        None => m.calendar,
                    }).advanced(
                        m.dates[k + 1],
                        (match pay.lag {
                            Some(l) => l,
                            None => 0i32,
                        }) as int,
                        TimeUnit::Days,
                        match pay.adjustment {
                            Some(a) => a,
                            None => BusinessDayConvention::Following,
                        },
                        false,
                    )
                    &&& c.reference_period_start == (if k == 0 && !m.is_regular[0] {
                        m.calendar.advanced(
                            m.dates[1],
                            -t,
                            m.tenor.unit,
                            m.convention,
                            m.end_of_month,
                        ).unwrap()
                    } else {
                        m.dates[k]
                    })
                    &&& c.reference_period_end == (if 0 < k && k == n - 2 && !m.is_regular[k] {
                        m.calendar.advanced(
                            m.dates[k],
                            t,
                            m.tenor.unit,
                            m.convention,
                            m.end_of_month,
                        ).unwrap()
                    } else {
                        m.dates[k + 1]
                    })
                    &&& c.rate_index == (if k < n_rates {
                        k
                    } else {
                        n_rates - 1
                    })
                    &&& c.notional_index == (if k < n_notionals {
                        k
                    } else {
                        n_notionals - 1
                    })
                    &&& c.day_counter == (if k == 0 {
                        CouponDayCounter::FirstPeriod
                    } else if k == n - 2 {
                        CouponDayCounter::LastPeriod
                    } else {
                        CouponDayCounter::Rate
                    })
                    &&& ex.period is None ==> c.ex_coupon_date == null_serial()
                }
        }),
{
    lemma_coupons_from(m, pay, ex, n_rates, n_notionals, 0);
    let v = coupon_periods_spec(m, pay, ex, n_rates, n_notionals).unwrap();
    assert forall|k: int| 0 <= k < m.dates.len() - 1 implies coupon_spec(
        m,
        pay,
        ex,
        n_rates,
        n_notionals,
        k,
    ) == Ok::<CouponModel, CouponError>(#[trigger] v[k]) by {
        assert(coupon_spec(m, pay, ex, n_rates, n_notionals, 0 + k) == Ok::<
            CouponModel,
            CouponError,
        >(v[k]));
    }
    reveal(coupon_spec);
}

/// The coupons as models.
pub open spec fn coupon_models(v: Seq<CouponPeriod>) -> Seq<CouponModel> {
    v.map_values(|c: CouponPeriod| c.model())
}

/// `p` followed by the coupons of `r`, when there are any.
pub open spec fn after_prefix(p: Seq<CouponModel>, r: Result<Seq<CouponModel>, CouponError>) -> Result<
    Seq<CouponModel>,
    CouponError,
> {
    match r {
        Ok(rest) => Ok(p + rest),
        Err(e) => Err(e),
    }
}

fn payment_date(schedule: &Schedule, pay: &PaymentSettings, end: Date) -> (r: Option<Date>)
    ensures
        (match r {
            Some(d) => payment_date_spec(schedule@, *pay, end@) == Some(d@),
            None => payment_date_spec(schedule@, *pay, end@) is None,
        }),
{
    let cal = match pay.calendar {
        Some(c) => c,
        None => schedule.calendar(),
    };
    let adjustment = match pay.adjustment {
        Some(a) => a,
        None => BusinessDayConvention::Following,
    };
    let lag = match pay.lag {
        Some(l) => l,
        None => 0,
    };
    cal.checked_advance(end, lag, TimeUnit::Days, adjustment, false)
}

fn ex_coupon_date(ex: &ExCouponSettings, payment: Date) -> (r: Result<Date, CouponError>)
    ensures
        (match r {
            Ok(d) => ex_coupon_date_spec(*ex, payment@) == Ok::<int, CouponError>(d@),
            Err(e) => ex_coupon_date_spec(*ex, payment@) == Err::<int, CouponError>(e),
        }),
{
    match ex.period {
        None => Ok(Date::default()),
        Some(p) => match ex.adjustment {
            None => Err(CouponError::MissingExCouponAdjustment),
            Some(adjustment) => match ex.end_of_month {
                None => Err(CouponError::MissingExCouponEndOfMonth),
                Some(eom) => match ex.calendar {
                    None => Err(CouponError::MissingExCouponCalendar),
                    Some(cal) => {
                        if p.length == i32::MIN {
                            return Err(CouponError::DateOutOfRange);
                        }
                        match cal.checked_advance(payment, -p.length, p.unit, adjustment, eom) {
                            None => Err(CouponError::DateOutOfRange),
                            Some(d) => Ok(d),
                        }
                    },
                },
            },
        },
    }
}

fn coupon(
    schedule: &Schedule,
    pay: &PaymentSettings,
    ex: &ExCouponSettings,
    n_rates: usize,
    n_notionals: usize,
    k: usize,
) -> (r: Result<CouponPeriod, CouponError>)
    requires
        n_rates >= 1,
        n_notionals >= 1,
        k + 1 < schedule@.dates.len(),
    ensures
        (match r {
            Ok(c) => coupon_spec(schedule@, *pay, *ex, n_rates as int, n_notionals as int, k as int)
                == Ok::<CouponModel, CouponError>(c.model()),
            Err(e) => coupon_spec(schedule@, *pay, *ex, n_rates as int, n_notionals as int, k as int)
                == Err::<CouponModel, CouponError>(e),
        }),
{
    proof {
        reveal(coupon_spec);
    }
    let n = schedule.size();
    let start = *schedule.date(k);
    let end = *schedule.date(k + 1);
    let payment = match payment_date(schedule, pay, end) {
        None => {
            return Err(CouponError::DateOutOfRange);
        },
        Some(d) => d,
    };
    let ex_coupon = match ex_coupon_date(ex, payment) {
        Err(e) => {
            return Err(e);
        },
        Ok(d) => d,
    };
    let rate_index = if k < n_rates {
        k
    } else {
        n_rates - 1
    };
    let notional_index = if k < n_notionals {
        k
    } else {
        n_notionals - 1
    };
    let tenor = schedule.tenor();
    let cal = schedule.calendar();
    let conv = schedule.business_day_convention();
    let eom = schedule.end_of_month();
    let reference: Option<(Date, Date)> = if k == 0 {
        if !schedule.is_regular(1) {
            match cal.checked_advance(end, -tenor.length, tenor.unit, conv, eom) {
                None => None,
                Some(r) => Some((r, end)),
            }
        } else {
            Some((start, end))
        }
    } else if k == n - 2 {
        if schedule.is_regular(n - 1) {
            Some((start, end))
        } else {
            match cal.checked_advance(start, tenor.length, tenor.unit, conv, eom) {
                None => None,
                Some(r) => Some((start, r)),
            }
        }
    } else {
        Some((start, end))
    };
    match reference {
        None => Err(CouponError::DateOutOfRange),
        Some((rs, re)) => Ok(
            CouponPeriod {
                payment_date: payment,
                accrual_start_date: start,
                accrual_end_date: end,
                reference_period_start: rs,
                reference_period_end: re,
                ex_coupon_date: ex_coupon,
                rate_index,
                notional_index,
                day_counter: if k == 0 {
                    CouponDayCounter::FirstPeriod
                } else if k == n - 2 {
                    CouponDayCounter::LastPeriod
                } else {
                    CouponDayCounter::Rate
                },
            },
        ),
    }
}

/// The dates of the coupons of a fixed rate leg on the schedule, with the rate, notional and
/// day counter each takes among `n_rates` rates and `n_notionals` notionals (see
/// [coupon_periods_spec]).
pub fn coupon_periods(
    schedule: &Schedule,
    pay: &PaymentSettings,
    ex: &ExCouponSettings,
    n_rates: usize,
    n_notionals: usize,
) -> (r: Result<Vec<CouponPeriod>, CouponError>)
    ensures
        (match r {
            Ok(v) => coupon_periods_spec(schedule@, *pay, *ex, n_rates as int, n_notionals as int)
                == Ok::<Seq<CouponModel>, CouponError>(coupon_models(v@)),
            Err(e) => coupon_periods_spec(schedule@, *pay, *ex, n_rates as int, n_notionals as int)
                == Err::<Seq<CouponModel>, CouponError>(e),
        }),
{
    if n_rates == 0 {
        return Err(CouponError::NoCouponRates);
    }
    if n_notionals == 0 {
        return Err(CouponError::NoNotionals);
    }
    let n = schedule.size();
    let ghost m = schedule@;
    let mut v: Vec<CouponPeriod> = Vec::new();
    let mut k: usize = 0;
    proof {
        assert(coupon_models(v@) =~= Seq::<CouponModel>::empty());
        match coupons_from(m, *pay, *ex, n_rates as int, n_notionals as int, 0) {
            Ok(x) => {
                assert(Seq::<CouponModel>::empty() + x =~= x);
            },
            Err(_) => {},
        }
    }
    while k + 1 < n
        invariant
            n == m.dates.len(),
            m == schedule@,
            n >= 2,
            k + 1 <= n,
            n_rates >= 1,
            n_notionals >= 1,
            coupons_from(m, *pay, *ex, n_rates as int, n_notionals as int, 0) == after_prefix(
                coupon_models(v@),
                coupons_from(m, *pay, *ex, n_rates as int, n_notionals as int, k as int),
            ),
        decreases n - k,
    {
        let c = match coupon(schedule, pay, ex, n_rates, n_notionals, k) {
            Err(e) => {
                return Err(e);
            },
            Ok(c) => c,
        };
        let ghost before = coupon_models(v@);
        v.push(c);
        proof {
            assert(coupon_models(v@) =~= before.push(c.model()));
            let rest = coupons_from(m, *pay, *ex, n_rates as int, n_notionals as int, k + 1);
            match rest {
                Ok(x) => {
                    assert(before + (seq![c.model()] + x) =~= before.push(c.model()) + x);
                },
                Err(_) => {},
            }
        }
        k = k + 1;
    }
    proof {
        assert(coupon_models(v@) + Seq::<CouponModel>::empty() =~= coupon_models(v@));
    }
    Ok(v)
}

} // verus!
