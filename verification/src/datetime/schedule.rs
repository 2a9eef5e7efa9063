use vstd::prelude::*;

use crate::context::pricing_context::PricingContext;
use crate::datetime::businessdayconvention::BusinessDayConvention;
use crate::datetime::calendar::{opt_serial, Calendar};
use crate::datetime::date::{
    lemma_serial_has_date, month_of_serial, year_of_serial, Date, MAXIMUM_SERIAL_NUMBER,
    MINIMUM_SERIAL_NUMBER,
};
use crate::datetime::dategenerationrule::DateGenerationRule;
use crate::datetime::holidays::nilholiday::NilHoliday;
use crate::datetime::months::lemma_month_number_roundtrip;
use crate::datetime::period::Period;
use crate::datetime::schedule_laws::{
    is_order_keeping, lemma_schedule_order, lemma_unadjusted_schedule_ends_at_inputs,
};
use crate::datetime::schedule_rules::{
    apart_after_adjustment, backward_finish, backward_start, backward_steps, forward_finish,
    forward_head, forward_start, forward_steps, generated, is_imm_twentieth_rule, is_twentieth_rule, next_twentieth_spec,
    null_advanced, null_calendar, null_serial, previous_twentieth_spec, shifted, GenParams,
    GenState, ScheduleError, third_wednesday_of, third_wednesday_dates, month_end_of,
    month_end_middle, adjusted_middle, month_end_date, month_end_ends, business_adjusted,
    adjusted_dates, trimmed, without_late_date, without_early_date, effective_date_spec,
    stub_date_error, validated_inputs, schedule_dates, first_not_before, kept_through, after_spec,
    until_spec, ScheduleModel, schedule_outcome, allows_end_of_month_spec, increasing,
    lemma_lookup_index,
};
use crate::datetime::imm::{lemma_third_wednesday, IMM};
use crate::datetime::weekday::Weekday;
use crate::datetime::timeunit::TimeUnit;

verus! {

/// Serial numbers of a list of dates.
pub open spec fn serials(v: Seq<Date>) -> Seq<int> {
    v.map_values(|d: Date| d@)
}

/// The state of a schedule being built, as serial numbers.
pub open spec fn state_of(dates: Vec<Date>, reg: Vec<bool>) -> GenState {
    (serials(dates@), reg@)
}

/// The date `n` units away from `d`, when it lies in the range of dates.
pub(crate) fn checked_shift(d: Date, n: i32, unit: TimeUnit) -> (r: Option<Date>)
    ensures
        opt_serial(r) == shifted(d@, n as int, unit),
{
    if d.can_advance_by(n, unit) {
        Some(d.advance(n, unit))
    } else {
        None
    }
}

/// Whether the rule puts its 20ths in March, June, September and December only.
fn imm_twentieth(rule: DateGenerationRule) -> (r: bool)
    ensures
        r == is_imm_twentieth_rule(rule),
{
    rule == DateGenerationRule::TwentiethIMM || rule == DateGenerationRule::OldCDS || rule
        == DateGenerationRule::CDS || rule == DateGenerationRule::CDS2015
}

/// Whether the rule generates dates on 20ths.
fn twentieth(rule: DateGenerationRule) -> (r: bool)
    ensures
        r == is_twentieth_rule(rule),
{
    rule == DateGenerationRule::Twentieth || imm_twentieth(rule)
}

/// The 20th of the month of `d` (as a date with the day of `d` replaced).
fn twentieth_of_month(d: &Date) -> (r: Date)
    ensures
        r@ == crate::datetime::date::serial_of(
            crate::datetime::date::ymd_of_serial(d@).0,
            crate::datetime::date::ymd_of_serial(d@).1,
            20,
        ),
{
    let m = d.month();
    let y = d.year();
    proof {
        lemma_month_number_roundtrip(m, 1);
    }
    Date::new(20, m, y)
}

pub(crate) fn checked_previous_twentieth(d: &Date, rule: DateGenerationRule) -> (r: Option<Date>)
    ensures
        opt_serial(r) == previous_twentieth_spec(d@, rule),
{
    reveal(previous_twentieth_spec);
    let r0 = twentieth_of_month(d);
    let r1 = if r0.serial_number() > d.serial_number() {
        checked_shift(r0, -1, TimeUnit::Months)
    } else {
        Some(r0)
    };
    match r1 {
        None => None,
        Some(r) => {
            let m = r.month().to_integer();
            if imm_twentieth(rule) && m % 3 != 0 {
                checked_shift(r, -(m % 3), TimeUnit::Months)
            } else {
                Some(r)
            }
        },
    }
}

fn checked_next_twentieth(d: &Date, rule: DateGenerationRule) -> (r: Option<Date>)
    ensures
        opt_serial(r) == next_twentieth_spec(d@, rule),
{
    let r0 = twentieth_of_month(d);
    let r1 = if r0.serial_number() < d.serial_number() {
        checked_shift(r0, 1, TimeUnit::Months)
    } else {
        Some(r0)
    };
    match r1 {
        None => None,
        Some(r) => {
            let m = r.month().to_integer();
            if imm_twentieth(rule) && m % 3 != 0 {
                checked_shift(r, 3 - m % 3, TimeUnit::Months)
            } else {
                Some(r)
            }
        },
    }
}

/// Helper function for returning the date on or before date `d` that is the 20th of
/// the month and observes the given date generation `rule` if it is relevant.
pub fn previous_twentieth(d: &Date, rule: DateGenerationRule) -> (r: Date)
    requires
        previous_twentieth_spec(d@, rule) is Some,
    ensures
        previous_twentieth_spec(d@, rule) == Some(r@),
{
    checked_previous_twentieth(d, rule).unwrap()
}

/// The date `n` units from `seed` in the calendar without holidays.
fn null_advance(
    seed: Date,
    n: i64,
    unit: TimeUnit,
    convention: BusinessDayConvention,
    end_of_month: bool,
) -> (r: Option<Date>)
    ensures
        opt_serial(r) == null_advanced(seed@, n as int, unit, convention, end_of_month),
{
    if n < i32::MIN as i64 || n > i32::MAX as i64 {
        return None;
    }
    let cal = NilHoliday::new();
    assert(cal == null_calendar());
    cal.checked_advance(seed, n as i32, unit, convention, end_of_month)
}

/// `k` times the length `len`, as a 64-bit integer.
fn scaled_length(k: i32, len: i32) -> (r: i64)
    ensures
        r == k * len,
        -0x4000_0000_0000_0000 <= r <= 0x4000_0000_0000_0000,
{
    let a = k as i64;
    let b = len as i64;
    assert(-0x4000_0000_0000_0000 <= a * b <= 0x4000_0000_0000_0000) by (nonlinear_arith)
        requires
            -0x8000_0000 <= a <= 0x7fff_ffff,
            -0x8000_0000 <= b <= 0x7fff_ffff,
    ;
    a * b
}

/// Whether `a` and `b` stay apart once adjusted by `c`.
fn checked_apart(cal: &Calendar, a: Date, b: Date, c: BusinessDayConvention) -> (r: Option<bool>)
    ensures
        r == apart_after_adjustment(*cal, a@, b@, c),
{
    match (cal.checked_adjust(a, c), cal.checked_adjust(b, c)) {
        (Some(x), Some(y)) => Some(x.serial_number() != y.serial_number()),
        _ => None,
    }
}

/// The parameters that date generation works with.
#[derive(Clone, Copy)]
struct Generation {
    calendar: Calendar,
    convention: BusinessDayConvention,
    termination_convention: BusinessDayConvention,
    tenor: Period,
    rule: DateGenerationRule,
    end_of_month: bool,
    effective: Date,
    termination: Date,
    first: Date,
    next_to_last: Date,
}

impl Generation {
    spec fn params(self) -> GenParams {
        GenParams {
            calendar: self.calendar,
            convention: self.convention,
            termination_convention: self.termination_convention,
            tenor: self.tenor,
            rule: self.rule,
            end_of_month: self.end_of_month,
            effective: self.effective@,
            termination: self.termination@,
            first: self.first@,
            next_to_last: self.next_to_last@,
        }
    }
}

/// The outcome of a generation step, as serial numbers.
spec fn state_result(r: Result<(Vec<Date>, Vec<bool>), ScheduleError>) -> Result<
    GenState,
    ScheduleError,
> {
    match r {
        Ok((d, g)) => Ok(state_of(d, g)),
        Err(e) => Err(e),
    }
}

/// The outcome of a generation start, as serial numbers.
spec fn start_result(r: Result<(Vec<Date>, Vec<bool>, Date), ScheduleError>) -> Result<
    (GenState, int),
    ScheduleError,
> {
    match r {
        Ok((d, g, s)) => Ok((state_of(d, g), s@)),
        Err(e) => Err(e),
    }
}

fn backward_start_exec(g: &Generation) -> (r: Result<(Vec<Date>, Vec<bool>, Date), ScheduleError>)
    ensures
        start_result(r) == backward_start(g.params()),
        r matches Ok((d, f, _)) ==> d.len() >= 1 && f.len() + 1 == d.len(),
{
    if g.next_to_last.serial_number() != MINIMUM_SERIAL_NUMBER {
        let n = -(g.tenor.length as i64);
        match null_advance(g.termination, n, g.tenor.unit, g.convention, g.end_of_month) {
            None => Err(ScheduleError::DateOutOfRange),
            Some(t) => {
                let dates = vec![g.next_to_last, g.termination];
                let reg = vec![t.serial_number() == g.next_to_last.serial_number()];
                proof {
                    assert(serials(dates@) =~= seq![g.next_to_last@, g.termination@]);
                    assert(reg@ =~= seq![t@ == g.next_to_last@]);
                }
                Ok((dates, reg, g.next_to_last))
            },
        }
    } else {
        let dates = vec![g.termination];
        let reg: Vec<bool> = Vec::new();
        proof {
            assert(serials(dates@) =~= seq![g.termination@]);
            assert(reg@ =~= Seq::<bool>::empty());
        }
        Ok((dates, reg, g.termination))
    }
}

fn backward_steps_exec(g: &Generation, seed: Date, start: Vec<Date>, start_reg: Vec<bool>) -> (r: Result<
    (Vec<Date>, Vec<bool>),
    ScheduleError,
>)
    requires
        start.len() >= 1,
        start_reg.len() + 1 == start.len(),
    ensures
        state_result(r) == backward_steps(g.params(), seed@, 1, state_of(start, start_reg)),
        r matches Ok((d, f)) ==> d.len() >= 1 && f.len() + 1 == d.len(),
{
    let ghost p = g.params();
    let ghost init = state_of(start, start_reg);
    let mut dates = start;
    let mut reg = start_reg;
    let mut k: i32 = 1;
    let exit = if g.first.serial_number() != MINIMUM_SERIAL_NUMBER {
        g.first
    } else {
        g.effective
    };
    loop
        invariant
            1 <= k,
            dates.len() >= 1,
            reg.len() + 1 == dates.len(),
            p == g.params(),
            init == state_of(start, start_reg),
            exit@ == (if p.first != null_serial() {
                p.first
            } else {
                p.effective
            }),
            backward_steps(p, seed@, 1, init) == backward_steps(
                p,
                seed@,
                k as int,
                state_of(dates, reg),
            ),
        decreases i32::MAX - k,
    {
        let n = -scaled_length(k, g.tenor.length);
        match null_advance(seed, n, g.tenor.unit, g.convention, g.end_of_month) {
            None => {
                return Err(ScheduleError::DateOutOfRange);
            },
            Some(t) => {
                if t.serial_number() < exit.serial_number() {
                    if g.first.serial_number() != MINIMUM_SERIAL_NUMBER {
                        match checked_apart(&g.calendar, dates[0], g.first, g.convention) {
                            None => {
                                return Err(ScheduleError::DateOutOfRange);
                            },
                            Some(apart) => {
                                if apart {
                                    let ghost old_d = serials(dates@);
                                    let ghost old_r = reg@;
                                    dates.insert(0, g.first);
                                    reg.insert(0, false);
                                    proof {
                                        assert(serials(dates@) =~= seq![g.first@] + old_d);
                                        assert(reg@ =~= seq![false] + old_r);
                                    }
                                }
                                return Ok((dates, reg));
                            },
                        }
                    } else {
                        return Ok((dates, reg));
                    }
                } else {
                    match checked_apart(&g.calendar, dates[0], t, g.convention) {
                        None => {
                            return Err(ScheduleError::DateOutOfRange);
                        },
                        Some(apart) => {
                            if apart {
                                let ghost old_d = serials(dates@);
                                let ghost old_r = reg@;
                                dates.insert(0, t);
                                reg.insert(0, true);
                                proof {
                                    assert(serials(dates@) =~= seq![t@] + old_d);
                                    assert(reg@ =~= seq![true] + old_r);
                                }
                            }
                            if k == i32::MAX {
                                return Err(ScheduleError::DateOutOfRange);
                            }
                            k = k + 1;
                        },
                    }
                }
            },
        }
    }
}

fn backward_finish_exec(g: &Generation, dates: Vec<Date>, reg: Vec<bool>) -> (r: Result<
    (Vec<Date>, Vec<bool>),
    ScheduleError,
>)
    requires
        dates.len() >= 1,
        reg.len() + 1 == dates.len(),
    ensures
        state_result(r) == backward_finish(g.params(), state_of(dates, reg)),
        r matches Ok((d, f)) ==> d.len() >= 1 && f.len() + 1 == d.len(),
{
    let mut dates = dates;
    let mut reg = reg;
    match checked_apart(&g.calendar, dates[0], g.effective, g.convention) {
        None => Err(ScheduleError::DateOutOfRange),
        Some(apart) => {
            if apart {
                let ghost old_d = serials(dates@);
                let ghost old_r = reg@;
                dates.insert(0, g.effective);
                reg.insert(0, false);
                proof {
                    assert(serials(dates@) =~= seq![g.effective@] + old_d);
                    assert(reg@ =~= seq![false] + old_r);
                }
            }
            Ok((dates, reg))
        },
    }
}

fn forward_head_exec(g: &Generation) -> (r: Result<(Vec<Date>, Vec<bool>), ScheduleError>)
    ensures
        state_result(r) == forward_head(g.params()),
        r matches Ok((d, f)) ==> d.len() >= 1 && f.len() + 1 == d.len(),
{
    if g.rule == DateGenerationRule::CDS || g.rule == DateGenerationRule::CDS2015 {
        let p20 = match checked_previous_twentieth(&g.effective, g.rule) {
            None => {
                return Err(ScheduleError::DateOutOfRange);
            },
            Some(d) => d,
        };
        let a = match g.calendar.checked_adjust(p20, g.convention) {
            None => {
                return Err(ScheduleError::DateOutOfRange);
            },
            Some(d) => d,
        };
        if a.serial_number() > g.effective.serial_number() {
            match checked_shift(p20, -3, TimeUnit::Months) {
                None => Err(ScheduleError::DateOutOfRange),
                Some(q) => {
                    let dates = vec![q, p20];
                    let reg = vec![true];
                    proof {
                        assert(serials(dates@) =~= seq![q@, p20@]);
                        assert(reg@ =~= seq![true]);
                    }
                    Ok((dates, reg))
                },
            }
        } else {
            let dates = vec![p20];
            let reg: Vec<bool> = Vec::new();
            proof {
                assert(serials(dates@) =~= seq![p20@]);
                assert(reg@ =~= Seq::<bool>::empty());
            }
            Ok((dates, reg))
        }
    } else {
        let dates = vec![g.effective];
        let reg: Vec<bool> = Vec::new();
        proof {
            assert(serials(dates@) =~= seq![g.effective@]);
            assert(reg@ =~= Seq::<bool>::empty());
        }
        Ok((dates, reg))
    }
}

fn forward_start_exec(g: &Generation) -> (r: Result<(Vec<Date>, Vec<bool>, Date), ScheduleError>)
    ensures
        start_result(r) == forward_start(g.params()),
        r matches Ok((d, f, _)) ==> d.len() >= 1 && f.len() + 1 == d.len(),
{
    let ghost p = g.params();
    let (mut dates, mut reg) = match forward_head_exec(g) {
        Err(e) => {
            return Err(e);
        },
        Ok(x) => x,
    };
    let ghost head = state_of(dates, reg);
    let seed = dates[dates.len() - 1];
    proof {
        assert(serials(dates@).last() == seed@);
    }
    if g.first.serial_number() != MINIMUM_SERIAL_NUMBER {
        match null_advance(seed, g.tenor.length as i64, g.tenor.unit, g.convention, g.end_of_month) {
            None => Err(ScheduleError::DateOutOfRange),
            Some(t) => {
                let ghost old_d = serials(dates@);
                let ghost old_r = reg@;
                dates.push(g.first);
                reg.push(t.serial_number() == g.first.serial_number());
                proof {
                    assert(serials(dates@) =~= old_d.push(g.first@));
                    assert(reg@ =~= old_r.push(t@ == g.first@));
                }
                Ok((dates, reg, g.first))
            },
        }
    } else if twentieth(g.rule) {
        let n0 = match checked_next_twentieth(&g.effective, g.rule) {
            None => {
                return Err(ScheduleError::DateOutOfRange);
            },
            Some(d) => d,
        };
        let n1 = if g.rule == DateGenerationRule::OldCDS && n0.serial_number()
            - g.effective.serial_number() < 30 {
            if n0.serial_number() + 1 > MAXIMUM_SERIAL_NUMBER {
                None
            } else {
                checked_next_twentieth(&n0.add_days(1), g.rule)
            }
        } else {
            Some(n0)
        };
        match n1 {
            None => Err(ScheduleError::DateOutOfRange),
            Some(n) => {
                if n.serial_number() != g.effective.serial_number() {
                    let ghost old_d = serials(dates@);
                    let ghost old_r = reg@;
                    dates.push(n);
                    reg.push(g.rule == DateGenerationRule::CDS || g.rule == DateGenerationRule::CDS2015);
                    proof {
                        assert(serials(dates@) =~= old_d.push(n@));
                        assert(reg@ =~= old_r.push(
                            p.rule == DateGenerationRule::CDS || p.rule == DateGenerationRule::CDS2015,
                        ));
                    }
                    Ok((dates, reg, n))
                } else {
                    Ok((dates, reg, seed))
                }
            },
        }
    } else {
        Ok((dates, reg, seed))
    }
}

fn forward_steps_exec(g: &Generation, seed: Date, start: Vec<Date>, start_reg: Vec<bool>) -> (r: Result<
    (Vec<Date>, Vec<bool>),
    ScheduleError,
>)
    requires
        start.len() >= 1,
        start_reg.len() + 1 == start.len(),
    ensures
        state_result(r) == forward_steps(g.params(), seed@, 1, state_of(start, start_reg)),
        r matches Ok((d, f)) ==> d.len() >= 1 && f.len() + 1 == d.len(),
{
    let ghost p = g.params();
    let ghost init = state_of(start, start_reg);
    let mut dates = start;
    let mut reg = start_reg;
    let mut k: i32 = 1;
    let exit = if g.next_to_last.serial_number() != MINIMUM_SERIAL_NUMBER {
        g.next_to_last
    } else {
        g.termination
    };
    loop
        invariant
            1 <= k,
            dates.len() >= 1,
            reg.len() + 1 == dates.len(),
            p == g.params(),
            init == state_of(start, start_reg),
            exit@ == (if p.next_to_last != null_serial() {
                p.next_to_last
            } else {
                p.termination
            }),
            forward_steps(p, seed@, 1, init) == forward_steps(
                p,
                seed@,
                k as int,
                state_of(dates, reg),
            ),
        decreases i32::MAX - k,
    {
        let n = scaled_length(k, g.tenor.length);
        let last = dates[dates.len() - 1];
        proof {
            assert(serials(dates@).last() == last@);
        }
        match null_advance(seed, n, g.tenor.unit, g.convention, g.end_of_month) {
            None => {
                return Err(ScheduleError::DateOutOfRange);
            },
            Some(t) => {
                if t.serial_number() > exit.serial_number() {
                    if g.next_to_last.serial_number() != MINIMUM_SERIAL_NUMBER {
                        match checked_apart(&g.calendar, last, g.next_to_last, g.convention) {
                            None => {
                                return Err(ScheduleError::DateOutOfRange);
                            },
                            Some(apart) => {
                                if apart {
                                    let ghost old_d = serials(dates@);
                                    let ghost old_r = reg@;
                                    dates.push(g.next_to_last);
                                    reg.push(false);
                                    proof {
                                        assert(serials(dates@) =~= old_d.push(g.next_to_last@));
                                        assert(reg@ =~= old_r.push(false));
                                    }
                                }
                                return Ok((dates, reg));
                            },
                        }
                    } else {
                        return Ok((dates, reg));
                    }
                } else {
                    match checked_apart(&g.calendar, last, t, g.convention) {
                        None => {
                            return Err(ScheduleError::DateOutOfRange);
                        },
                        Some(apart) => {
                            if apart {
                                let ghost old_d = serials(dates@);
                                let ghost old_r = reg@;
                                dates.push(t);
                                reg.push(true);
                                proof {
                                    assert(serials(dates@) =~= old_d.push(t@));
                                    assert(reg@ =~= old_r.push(true));
                                }
                            }
                            if k == i32::MAX {
                                return Err(ScheduleError::DateOutOfRange);
                            }
                            k = k + 1;
                        },
                    }
                }
            },
        }
    }
}

fn forward_finish_exec(g: &Generation, dates: Vec<Date>, reg: Vec<bool>) -> (r: Result<
    (Vec<Date>, Vec<bool>),
    ScheduleError,
>)
    requires
        dates.len() >= 1,
        reg.len() + 1 == dates.len(),
    ensures
        state_result(r) == forward_finish(g.params(), state_of(dates, reg)),
        r matches Ok((d, f)) ==> d.len() >= 1 && f.len() + 1 == d.len(),
{
    let ghost old_d = serials(dates@);
    let ghost old_r = reg@;
    let mut dates = dates;
    let mut reg = reg;
    let last = dates[dates.len() - 1];
    proof {
        assert(old_d.last() == last@);
    }
    match checked_apart(&g.calendar, last, g.termination, g.termination_convention) {
        None => Err(ScheduleError::DateOutOfRange),
        Some(false) => Ok((dates, reg)),
        Some(true) => {
            if twentieth(g.rule) {
                match checked_next_twentieth(&g.termination, g.rule) {
                    None => Err(ScheduleError::DateOutOfRange),
                    Some(n) => {
                        dates.push(n);
                        reg.push(true);
                        proof {
                            assert(serials(dates@) =~= old_d.push(n@));
                            assert(reg@ =~= old_r.push(true));
                        }
                        Ok((dates, reg))
                    },
                }
            } else {
                dates.push(g.termination);
                reg.push(false);
                proof {
                    assert(serials(dates@) =~= old_d.push(g.termination@));
                    assert(reg@ =~= old_r.push(false));
                }
                Ok((dates, reg))
            }
        },
    }
}

/// The unadjusted dates, the regularity of the periods and the seed of the generation.
fn generate(g: &Generation) -> (r: Result<(Vec<Date>, Vec<bool>, Date), ScheduleError>)
    ensures
        start_result(r) == generated(g.params()),
        r matches Ok((d, f, _)) ==> d.len() >= 1 && f.len() + 1 == d.len(),
{
    if g.rule == DateGenerationRule::Zero {
        let dates = vec![g.effective, g.termination];
        let reg = vec![true];
        proof {
            assert(serials(dates@) =~= seq![g.effective@, g.termination@]);
            assert(reg@ =~= seq![true]);
        }
        Ok((dates, reg, Date::from_serial(MINIMUM_SERIAL_NUMBER)))
    } else if g.rule == DateGenerationRule::Backward {
        let (d0, r0, seed) = match backward_start_exec(g) {
            Err(e) => {
                return Err(e);
            },
            Ok(x) => x,
        };
        let (d1, r1) = match backward_steps_exec(g, seed, d0, r0) {
            Err(e) => {
                return Err(e);
            },
            Ok(x) => x,
        };
        match backward_finish_exec(g, d1, r1) {
            Err(e) => Err(e),
            Ok((d2, r2)) => Ok((d2, r2, seed)),
        }
    } else if g.rule != DateGenerationRule::Forward && g.end_of_month {
        Err(ScheduleError::EndOfMonthIncompatible)
    } else {
        let (d0, r0, seed) = match forward_start_exec(g) {
            Err(e) => {
                return Err(e);
            },
            Ok(x) => x,
        };
        let (d1, r1) = match forward_steps_exec(g, seed, d0, r0) {
            Err(e) => {
                return Err(e);
            },
            Ok(x) => x,
        };
        match forward_finish_exec(g, d1, r1) {
            Err(e) => Err(e),
            Ok((d2, r2)) => Ok((d2, r2, seed)),
        }
    }
}

/// The outcome of an adjustment, as serial numbers.
spec fn dates_option(r: Option<Vec<Date>>) -> Option<Seq<int>> {
    match r {
        Some(v) => Some(serials(v@)),
        None => None,
    }
}

/// The third Wednesday of the month of `d`.
fn third_wednesday_date(d: &Date) -> (r: Date)
    ensures
        r@ == third_wednesday_of(d@),
{
    let m = d.month();
    let y = d.year();
    proof {
        lemma_month_number_roundtrip(m, 1);
        lemma_third_wednesday(y as int, m.number());
    }
    Date::nth_weekday(3, Weekday::Wednesday, m, y)
}

fn third_wednesday_exec(rule: DateGenerationRule, dates: Vec<Date>) -> (r: Vec<Date>)
    requires
        dates.len() >= 1,
    ensures
        serials(r@) == third_wednesday_dates(rule, serials(dates@)),
        r.len() == dates.len(),
{
    let ghost orig = serials(dates@);
    let n = dates.len();
    if rule != DateGenerationRule::ThirdWednesday && rule != DateGenerationRule::ThirdWednesdayInclusive {
        return dates;
    }
    let inclusive = rule == DateGenerationRule::ThirdWednesdayInclusive;
    let lo: usize = if inclusive { 0 } else { 1 };
    let hi: usize = if inclusive { n } else { n - 1 };
    let mut v = dates;
    let mut i = lo;
    while i < hi
        invariant
            v.len() == n,
            n >= 1,
            lo <= i,
            i <= hi || i == lo,
            lo == (if inclusive { 0usize } else { 1usize }),
            hi == (if inclusive { n } else { (n - 1) as usize }),
            orig.len() == n,
            orig == serials(dates@),
            forall|j: int|
                0 <= j < n ==> #[trigger] serials(v@)[j] == (if lo <= j < i {
                    third_wednesday_of(orig[j])
                } else {
                    orig[j]
                }),
        decreases hi - i,
    {
        proof {
            assert(serials(v@)[i as int] == v@[i as int]@);
        }
        let w = third_wednesday_date(&v[i]);
        let ghost before = serials(v@);
        v.set(i, w);
        proof {
            assert forall|j: int| 0 <= j < n implies #[trigger] serials(v@)[j] == (if lo <= j < i + 1 {
                third_wednesday_of(orig[j])
            } else {
                orig[j]
            }) by {
                if j != i {
                    assert(serials(v@)[j] == before[j]);
                }
            }
        }
        i = i + 1;
    }
    proof {
        assert(serials(v@) =~= third_wednesday_dates(rule, orig));
    }
    v
}

/// The end of the month of `d`: its last day when `c` is unadjusted, else its last
/// business day.
fn month_end_date_exec(cal: &Calendar, c: BusinessDayConvention, d: &Date) -> (r: Option<Date>)
    ensures
        opt_serial(r) == month_end_date(*cal, c, d@),
{
    reveal(month_end_date);
    if c == BusinessDayConvention::Unadjusted {
        let e = d.end_of_month();
        let _ = e.serial_number();
        proof {
            lemma_serial_has_date(e@);
        }
        Some(e)
    } else {
        cal.checked_end_of_month(d)
    }
}

fn month_end_middle_exec(cal: &Calendar, c: BusinessDayConvention, dates: Vec<Date>) -> (r: Option<
    Vec<Date>,
>)
    requires
        dates.len() >= 1,
    ensures
        dates_option(r) == month_end_middle(*cal, c, serials(dates@)),
        r matches Some(v) ==> v.len() == dates.len(),
{
    let ghost orig = serials(dates@);
    let n = dates.len();
    let mut v = dates;
    let mut i: usize = 1;
    while i + 1 < n
        invariant
            v.len() == n,
            n >= 1,
            1 <= i,
            i + 1 <= n || i == 1,
            orig.len() == n,
            orig == serials(dates@),
            forall|j: int| 1 <= j < i ==> (#[trigger] month_end_date(*cal, c, orig[j])) is Some,
            forall|j: int|
                0 <= j < n ==> #[trigger] serials(v@)[j] == (if 1 <= j < i {
                    month_end_date(*cal, c, orig[j]).unwrap()
                } else {
                    orig[j]
                }),
        decreases n - i,
    {
        let d = v[i];
        proof {
            assert(serials(v@)[i as int] == v@[i as int]@);
        }
        assert(d@ == orig[i as int]);
        let e = match month_end_date_exec(cal, c, &d) {
            None => {
                proof {
                    assert(month_end_date(*cal, c, orig[i as int]) is None);
                }
                return None;
            },
            Some(e) => e,
        };
        let ghost before = serials(v@);
        v.set(i, e);
        proof {
            assert forall|j: int| 0 <= j < n implies #[trigger] serials(v@)[j] == (if 1 <= j < i + 1 {
                month_end_date(*cal, c, orig[j]).unwrap()
            } else {
                orig[j]
            }) by {
                if j != i {
                    assert(serials(v@)[j] == before[j]);
                }
            }
        }
        i = i + 1;
    }
    proof {
        let spec_r = month_end_middle(*cal, c, orig);
        assert(spec_r is Some);
        assert(serials(v@) =~= spec_r.unwrap());
    }
    Some(v)
}

fn adjusted_middle_exec(cal: &Calendar, c: BusinessDayConvention, dates: Vec<Date>) -> (r: Option<
    Vec<Date>,
>)
    requires
        dates.len() >= 1,
    ensures
        dates_option(r) == adjusted_middle(*cal, c, serials(dates@)),
        r matches Some(v) ==> v.len() == dates.len(),
{
    let ghost orig = serials(dates@);
    let n = dates.len();
    let mut v = dates;
    let mut i: usize = 1;
    while i + 1 < n
        invariant
            v.len() == n,
            n >= 1,
            1 <= i,
            i + 1 <= n || i == 1,
            orig.len() == n,
            orig == serials(dates@),
            forall|j: int| 1 <= j < i ==> (#[trigger] cal.adjusted(orig[j], c)) is Some,
            forall|j: int|
                0 <= j < n ==> #[trigger] serials(v@)[j] == (if 1 <= j < i {
                    cal.adjusted(orig[j], c).unwrap()
                } else {
                    orig[j]
                }),
        decreases n - i,
    {
        let d = v[i];
        proof {
            assert(serials(v@)[i as int] == v@[i as int]@);
        }
        assert(d@ == orig[i as int]);
        let e = match cal.checked_adjust(d, c) {
            None => {
                proof {
                    assert(cal.adjusted(orig[i as int], c) is None);
                }
                return None;
            },
            Some(e) => e,
        };
        let ghost before = serials(v@);
        v.set(i, e);
        proof {
            assert forall|j: int| 0 <= j < n implies #[trigger] serials(v@)[j] == (if 1 <= j < i + 1 {
                cal.adjusted(orig[j], c).unwrap()
            } else {
                orig[j]
            }) by {
                if j != i {
                    assert(serials(v@)[j] == before[j]);
                }
            }
        }
        i = i + 1;
    }
    proof {
        let spec_r = adjusted_middle(*cal, c, orig);
        assert(spec_r is Some);
        assert(serials(v@) =~= spec_r.unwrap());
    }
    Some(v)
}

/// The last day of the month of `d`.
fn month_end(d: &Date) -> (r: Date)
    ensures
        r@ == month_end_of(d@),
{
    let e = d.end_of_month();
    let _ = e.serial_number();
    proof {
        lemma_serial_has_date(e@);
    }
    e
}

fn month_end_ends_exec(g: &Generation, dates: Vec<Date>) -> (r: Option<Vec<Date>>)
    requires
        dates.len() >= 1,
    ensures
        dates_option(r) == month_end_ends(g.params(), serials(dates@)),
        r matches Some(v) ==> v.len() == dates.len(),
{
    let ghost orig = serials(dates@);
    let n = dates.len();
    let first = dates[0];
    let last = dates[n - 1];
    proof {
        assert(orig[0] == first@);
        assert(orig[n - 1] == last@);
    }
    let (d1, d2) = if g.termination_convention != BusinessDayConvention::Unadjusted {
        match (g.calendar.checked_end_of_month(&first), g.calendar.checked_end_of_month(&last)) {
            (Some(a), Some(b)) => (a, b),
            _ => {
                return None;
            },
        }
    } else if g.rule == DateGenerationRule::Backward {
        (first, month_end(&last))
    } else {
        (month_end(&first), last)
    };
    let mut v = dates;
    if d1.serial_number() != d2.serial_number() {
        v.set(0, d1);
        v.set(n - 1, d2);
        proof {
            assert(serials(v@) =~= orig.update(0, d1@).update(n - 1, d2@));
        }
    }
    Some(v)
}

fn business_adjusted_exec(g: &Generation, dates: Vec<Date>) -> (r: Option<Vec<Date>>)
    requires
        dates.len() >= 1,
    ensures
        dates_option(r) == business_adjusted(g.params(), serials(dates@)),
        r matches Some(v) ==> v.len() == dates.len(),
{
    let ghost orig = serials(dates@);
    let n = dates.len();
    let mut v = dates;
    if g.rule != DateGenerationRule::OldCDS {
        let d0 = v[0];
        proof {
            assert(orig[0] == d0@);
        }
        match g.calendar.checked_adjust(d0, g.convention) {
            None => {
                return None;
            },
            Some(a) => {
                v.set(0, a);
                proof {
                    assert(serials(v@) =~= orig.update(0, a@));
                }
            },
        }
    }
    let ghost stage1 = serials(v@);
    let mut w = match adjusted_middle_exec(&g.calendar, g.convention, v) {
        None => {
            return None;
        },
        Some(w) => w,
    };
    let ghost stage2 = serials(w@);
    if g.termination_convention != BusinessDayConvention::Unadjusted && g.rule
        != DateGenerationRule::CDS && g.rule != DateGenerationRule::CDS2015 {
        let dl = w[n - 1];
        proof {
            assert(stage2[n - 1] == dl@);
        }
        match g.calendar.checked_adjust(dl, g.convention) {
            None => {
                return None;
            },
            Some(a) => {
                w.set(n - 1, a);
                proof {
                    assert(serials(w@) =~= stage2.update(n - 1, a@));
                }
            },
        }
    }
    Some(w)
}

/// The generated dates after the third-Wednesday, end-of-month and business day adjustments.
fn adjusted_dates_exec(g: &Generation, seed: Date, dates: Vec<Date>) -> (r: Result<
    Vec<Date>,
    ScheduleError,
>)
    requires
        dates.len() >= 1,
    ensures
        (match r {
            Ok(v) => adjusted_dates(g.params(), seed@, serials(dates@)) == Ok::<
                Seq<int>,
                ScheduleError,
            >(serials(v@)),
            Err(e) => adjusted_dates(g.params(), seed@, serials(dates@)) == Err::<
                Seq<int>,
                ScheduleError,
            >(e),
        }),
        r matches Ok(v) ==> v.len() == dates.len(),
{
    let tw = third_wednesday_exec(g.rule, dates);
    let eom = if g.end_of_month {
        g.calendar.checked_is_end_of_month(&seed)
    } else {
        Some(false)
    };
    match eom {
        None => Err(ScheduleError::DateOutOfRange),
        Some(true) => match month_end_middle_exec(&g.calendar, g.convention, tw) {
            None => Err(ScheduleError::DateOutOfRange),
            Some(m) => match month_end_ends_exec(g, m) {
                None => Err(ScheduleError::DateOutOfRange),
                Some(e) => Ok(e),
            },
        },
        Some(false) => match business_adjusted_exec(g, tw) {
            None => Err(ScheduleError::DateOutOfRange),
            Some(a) => Ok(a),
        },
    }
}

/// The final clean-up of the dates of a schedule.
fn trim_exec(start: Vec<Date>, start_reg: Vec<bool>) -> (r: Result<(Vec<Date>, Vec<bool>), ScheduleError>)
    requires
        start.len() >= 1,
        start_reg.len() + 1 == start.len(),
    ensures
        state_result(r) == trimmed(state_of(start, start_reg)),
        r matches Ok((d, f)) ==> d.len() >= 2 && f.len() + 1 == d.len(),
{
    let ghost s0 = state_of(start, start_reg);
    let mut dates = start;
    let mut reg = start_reg;
    let n = dates.len();
    if n >= 2 && dates[n - 2].serial_number() >= dates[n - 1].serial_number() {
        let m = reg.len();
        if m >= 2 {
            let same = dates[n - 2].serial_number() == dates[n - 1].serial_number();
            reg.set(m - 2, same);
        }
        let last = dates[n - 1];
        dates.set(n - 2, last);
        dates.pop();
        reg.pop();
        proof {
            let d0 = s0.0;
            assert(serials(dates@) =~= d0.take(n - 2).push(d0[n - 1]));
            let r0 = s0.1;
            let r1 = if m >= 2 {
                r0.update(m - 2, d0[n - 2] == d0[n - 1])
            } else {
                r0
            };
            assert(reg@ =~= r1.drop_last());
        }
    }
    let ghost s1 = state_of(dates, reg);
    proof {
        assert(s1 == without_late_date(s0));
    }
    let n = dates.len();
    if n >= 2 && dates[1].serial_number() <= dates[0].serial_number() {
        if reg.len() < 2 {
            return Err(ScheduleError::Degenerate);
        }
        let same = dates[1].serial_number() == dates[0].serial_number();
        reg.set(1, same);
        let d0 = dates[0];
        dates.set(1, d0);
        dates.remove(0);
        reg.remove(0);
        proof {
            let e0 = s1.0;
            assert(serials(dates@) =~= seq![e0[0]] + e0.subrange(2, e0.len() as int));
            assert(reg@ =~= s1.1.update(1, e0[1] == e0[0]).drop_first());
        }
    }
    proof {
        assert(without_early_date(s1) == Ok::<GenState, ScheduleError>(state_of(dates, reg)));
    }
    if dates.len() <= 1 {
        return Err(ScheduleError::Degenerate);
    }
    Ok((dates, reg))
}

/// The effective date to build from (see [effective_date_spec]).
fn effective_date_exec(
    eval: &Date,
    effective: &Date,
    termination: &Date,
    rule: DateGenerationRule,
    first: &Date,
    next_to_last: &Date,
) -> (r: Result<Date, ScheduleError>)
    ensures
        (match r {
            Ok(e) => effective_date_spec(eval@, effective@, termination@, rule, first@, next_to_last@)
                == Ok::<int, ScheduleError>(e@),
            Err(x) => effective_date_spec(eval@, effective@, termination@, rule, first@, next_to_last@)
                == Err::<int, ScheduleError>(x),
        }),
{
    if effective.serial_number() == MINIMUM_SERIAL_NUMBER && first.serial_number()
        == MINIMUM_SERIAL_NUMBER && rule == DateGenerationRule::Backward {
        if !(eval.serial_number() < termination.serial_number()) {
            Err(ScheduleError::EvaluationDateNotBeforeTermination)
        } else if next_to_last.serial_number() != MINIMUM_SERIAL_NUMBER {
            let diff = next_to_last.serial_number() - eval.serial_number();
            let q: i32 = if diff >= 0 {
                ((diff as u32) / 366) as i32
            } else {
                -((((-diff) as u32) / 366) as i32)
            };
            match checked_shift(*next_to_last, -(q + 1), TimeUnit::Years) {
                None => Err(ScheduleError::DateOutOfRange),
                Some(e) => Ok(e),
            }
        } else {
            Ok(*effective)
        }
    } else if effective.serial_number() == MINIMUM_SERIAL_NUMBER {
        Err(ScheduleError::NullEffectiveDate)
    } else {
        Ok(*effective)
    }
}

/// The check of a first date (`is_first`) or next to last date (see [stub_date_error]).
fn stub_date_check(
    imm: &IMM,
    rule: DateGenerationRule,
    is_first: bool,
    d: &Date,
    effective: &Date,
    termination: &Date,
) -> (r: Option<ScheduleError>)
    ensures
        r == stub_date_error(rule, is_first, d@, effective@, termination@),
{
    let s = d.serial_number();
    if s == MINIMUM_SERIAL_NUMBER {
        return None;
    }
    match rule {
        DateGenerationRule::Backward | DateGenerationRule::Forward => {
            let e = effective.serial_number();
            let t = termination.serial_number();
            if is_first && !(e < s && s <= t) {
                Some(ScheduleError::FirstDateOutOfRange)
            } else if !is_first && !(e <= s && s < t) {
                Some(ScheduleError::NextToLastDateOutOfRange)
            } else {
                None
            }
        },
        DateGenerationRule::ThirdWednesday => {
            if imm.is_imm_date(d, false) {
                None
            } else if is_first {
                Some(ScheduleError::FirstDateNotImm)
            } else {
                Some(ScheduleError::NextToLastDateNotImm)
            }
        },
        _ => {
            if is_first {
                Some(ScheduleError::FirstDateIncompatible)
            } else {
                Some(ScheduleError::NextToLastDateIncompatible)
            }
        },
    }
}

/// The checks made before any date is generated (see [validated_inputs]).
fn validate(
    pricing_context: PricingContext,
    effective: &Date,
    termination: &Date,
    tenor: Period,
    rule: DateGenerationRule,
    first: &Date,
    next_to_last: &Date,
) -> (r: Result<(Date, DateGenerationRule), ScheduleError>)
    ensures
        (match r {
            Ok((e, rl)) => validated_inputs(
                pricing_context.eval_date@,
                effective@,
                termination@,
                tenor,
                rule,
                first@,
                next_to_last@,
            ) == Ok::<(int, DateGenerationRule), ScheduleError>((e@, rl)),
            Err(x) => validated_inputs(
                pricing_context.eval_date@,
                effective@,
                termination@,
                tenor,
                rule,
                first@,
                next_to_last@,
            ) == Err::<(int, DateGenerationRule), ScheduleError>(x),
        }),
{
    let first_n = if first.serial_number() == effective.serial_number() {
        Date::default()
    } else {
        *first
    };
    let ntl_n = if next_to_last.serial_number() == termination.serial_number() {
        Date::default()
    } else {
        *next_to_last
    };
    if termination.serial_number() == MINIMUM_SERIAL_NUMBER {
        return Err(ScheduleError::NullTerminationDate);
    }
    let eff = match effective_date_exec(
        &pricing_context.eval_date,
        effective,
        termination,
        rule,
        first,
        next_to_last,
    ) {
        Err(e) => {
            return Err(e);
        },
        Ok(e) => e,
    };
    if !(eff.serial_number() < termination.serial_number()) {
        return Err(ScheduleError::EffectiveDateNotBeforeTermination);
    }
    if tenor.length < 0 {
        return Err(ScheduleError::NegativeTenor);
    }
    let rule_n = if tenor.length == 0 {
        DateGenerationRule::Zero
    } else {
        rule
    };
    let imm = IMM::new(pricing_context);
    match stub_date_check(&imm, rule_n, true, &first_n, &eff, termination) {
        Some(e) => {
            return Err(e);
        },
        None => {},
    }
    match stub_date_check(&imm, rule_n, false, &ntl_n, &eff, termination) {
        Some(e) => {
            return Err(e);
        },
        None => {},
    }
    Ok((eff, rule_n))
}

/// The dates of a schedule and the regularity of its periods (see [schedule_dates]).
fn build_dates(g: &Generation) -> (r: Result<(Vec<Date>, Vec<bool>), ScheduleError>)
    ensures
        state_result(r) == schedule_dates(g.params()),
        r matches Ok((d, f)) ==> d.len() >= 2 && f.len() + 1 == d.len(),
{
    let (d0, reg0, seed) = match generate(g) {
        Err(e) => {
            return Err(e);
        },
        Ok(x) => x,
    };
    let d1 = match adjusted_dates_exec(g, seed, d0) {
        Err(e) => {
            return Err(e);
        },
        Ok(x) => x,
    };
    trim_exec(d1, reg0)
}

/// Payment Schedule
pub struct Schedule {
    pricing_context: PricingContext,
    dates: Vec<Date>,
    calendar: Calendar,
    convention: BusinessDayConvention,
    termination_date_convention: BusinessDayConvention,
    tenor: Period,
    rule: DateGenerationRule,
    end_of_month: bool,
    is_regular: Vec<bool>,
    first_date: Date,
    next_to_last_date: Date,
}

impl View for Schedule {
    type V = ScheduleModel;

    closed spec fn view(&self) -> ScheduleModel {
        ScheduleModel {
            eval_date: self.pricing_context.eval_date@,
            dates: serials(self.dates@),
            calendar: self.calendar,
            convention: self.convention,
            termination_date_convention: self.termination_date_convention,
            tenor: self.tenor,
            rule: self.rule,
            end_of_month: self.end_of_month,
            is_regular: self.is_regular@,
            first_date: self.first_date@,
            next_to_last_date: self.next_to_last_date@,
        }
    }
}

/// The outcome of building a schedule, as its model.
pub open spec fn schedule_result(r: Result<Schedule, ScheduleError>) -> Result<
    ScheduleModel,
    ScheduleError,
> {
    match r {
        Ok(s) => Ok(s@),
        Err(e) => Err(e),
    }
}

impl Schedule {
    /// A schedule has two dates at least, and one regularity flag per period.
    #[verifier::type_invariant]
    closed spec fn wf(self) -> bool {
        self.dates.len() >= 2 && self.is_regular.len() + 1 == self.dates.len() && self.tenor.length
            >= 0
    }

    /// Rule based constructor that reports why no schedule can be built from the inputs.
    #[allow(clippy::too_many_arguments)]
    #[verifier::rlimit(40)]
    pub fn try_new(
        pricing_context: PricingContext,
        effective_date: Date,
        termination_date: Date,
        tenor: Period,
        calendar: Calendar,
        convention: BusinessDayConvention,
        termination_date_convention: BusinessDayConvention,
        date_generation_rule: DateGenerationRule,
        eom: bool,
        first: Date,
        next_to_last: Date,
    ) -> (r: Result<Self, ScheduleError>)
        ensures
            schedule_result(r) == schedule_outcome(
                pricing_context.eval_date@,
                effective_date@,
                termination_date@,
                tenor,
                calendar,
                convention,
                termination_date_convention,
                date_generation_rule,
                eom,
                first@,
                next_to_last@,
            ),
            r matches Ok(s) ==> s@.dates.len() >= 2 && s@.is_regular.len() + 1 == s@.dates.len(),
            r matches Ok(s) ==> (date_generation_rule == DateGenerationRule::Forward
                || date_generation_rule == DateGenerationRule::Backward) && is_order_keeping(
                convention,
            ) && !eom && (first@ == null_serial() || first@ == effective_date@ || next_to_last@
                == null_serial() || next_to_last@ == termination_date@ || first@
                <= next_to_last@) ==> increasing(s@.dates),
            r matches Ok(s) ==> (date_generation_rule == DateGenerationRule::Forward
                || date_generation_rule == DateGenerationRule::Backward) && convention
                == BusinessDayConvention::Unadjusted && termination_date_convention
                == BusinessDayConvention::Unadjusted && !eom ==> s@.dates.last()
                == termination_date@ && (effective_date@ != null_serial() ==> s@.dates[0]
                == effective_date@),
    {
        let (eff, rule_n) = match validate(
            pricing_context,
            &effective_date,
            &termination_date,
            tenor,
            date_generation_rule,
            &first,
            &next_to_last,
        ) {
            Err(e) => {
                return Err(e);
            },
            Ok(x) => x,
        };
        let first_n = if first.serial_number() == effective_date.serial_number() {
            Date::default()
        } else {
            first
        };
        let ntl_n = if next_to_last.serial_number() == termination_date.serial_number() {
            Date::default()
        } else {
            next_to_last
        };
        let eom_n = allows_end_of_month(&tenor) && eom;
        let g = Generation {
            calendar,
            convention,
            termination_convention: termination_date_convention,
            tenor,
            rule: rule_n,
            end_of_month: eom_n,
            effective: eff,
            termination: termination_date,
            first: first_n,
            next_to_last: ntl_n,
        };
        let (dates, is_regular) = match build_dates(&g) {
            Err(e) => {
                return Err(e);
            },
            Ok(x) => x,
        };
        let schedule = Schedule {
            pricing_context,
            dates,
            calendar,
            convention,
            termination_date_convention,
            tenor: if rule_n == DateGenerationRule::Zero {
                Period::new(0, TimeUnit::Years)
            } else {
                tenor
            },
            rule: rule_n,
            end_of_month: eom_n,
            is_regular,
            first_date: first_n,
            next_to_last_date: ntl_n,
        };
        proof {
            if (date_generation_rule == DateGenerationRule::Forward || date_generation_rule
                == DateGenerationRule::Backward) && is_order_keeping(convention) && !eom && (first@
                == null_serial() || first@ == effective_date@ || next_to_last@ == null_serial()
                || next_to_last@ == termination_date@ || first@ <= next_to_last@) {
                lemma_schedule_order(
                    pricing_context.eval_date@,
                    effective_date@,
                    termination_date@,
                    tenor,
                    calendar,
                    convention,
                    termination_date_convention,
                    date_generation_rule,
                    first@,
                    next_to_last@,
                );
            }
            if (date_generation_rule == DateGenerationRule::Forward || date_generation_rule
                == DateGenerationRule::Backward) && convention == BusinessDayConvention::Unadjusted
                && termination_date_convention == BusinessDayConvention::Unadjusted && !eom {
                lemma_unadjusted_schedule_ends_at_inputs(
                    pricing_context.eval_date@,
                    effective_date@,
                    termination_date@,
                    tenor,
                    calendar,
                    date_generation_rule,
                    first@,
                    next_to_last@,
                );
            }
        }
        Ok(schedule)
    }

    /// Rule based constructor.
    #[allow(clippy::too_many_arguments)]
    pub fn new(
        pricing_context: PricingContext,
        effective_date: Date,
        termination_date: Date,
        tenor: Period,
        calendar: Calendar,
        convention: BusinessDayConvention,
        termination_date_convention: BusinessDayConvention,
        date_generation_rule: DateGenerationRule,
        eom: bool,
        first: Date,
        next_to_last: Date,
    ) -> (r: Self)
        requires
            schedule_outcome(
                pricing_context.eval_date@,
                effective_date@,
                termination_date@,
                tenor,
                calendar,
                convention,
                termination_date_convention,
                date_generation_rule,
                eom,
                first@,
                next_to_last@,
            ) is Ok,
        ensures
            schedule_outcome(
                pricing_context.eval_date@,
                effective_date@,
                termination_date@,
                tenor,
                calendar,
                convention,
                termination_date_convention,
                date_generation_rule,
                eom,
                first@,
                next_to_last@,
            ) == Ok::<ScheduleModel, ScheduleError>(r@),
            r@.dates.len() >= 2,
            r@.is_regular.len() + 1 == r@.dates.len(),
            (date_generation_rule == DateGenerationRule::Forward || date_generation_rule
                == DateGenerationRule::Backward) && is_order_keeping(convention) && !eom && (first@
                == null_serial() || first@ == effective_date@ || next_to_last@ == null_serial()
                || next_to_last@ == termination_date@ || first@ <= next_to_last@) ==> increasing(
                r@.dates,
            ),
            (date_generation_rule == DateGenerationRule::Forward || date_generation_rule
                == DateGenerationRule::Backward) && convention == BusinessDayConvention::Unadjusted
                && termination_date_convention == BusinessDayConvention::Unadjusted && !eom
                ==> r@.dates.last() == termination_date@ && (effective_date@ != null_serial()
                ==> r@.dates[0] == effective_date@),
    {
        Self::try_new(
            pricing_context,
            effective_date,
            termination_date,
            tenor,
            calendar,
            convention,
            termination_date_convention,
            date_generation_rule,
            eom,
            first,
            next_to_last,
        ).unwrap()
    }
}

/// A tenor admits the end-of-month convention when it is at least one month long and made of
/// months or years.
fn allows_end_of_month(tenor: &Period) -> (r: bool)
    ensures
        r == allows_end_of_month_spec(*tenor),
{
    (tenor.unit == TimeUnit::Months || tenor.unit == TimeUnit::Years) && tenor.length >= 1
}

impl Clone for Schedule {
    fn clone(&self) -> (r: Self)
        ensures
            r@ == self@,
    {
        proof {
            use_type_invariant(self);
        }
        let dates = self.dates.clone();
        let is_regular = self.is_regular.clone();
        proof {
            assert(dates@ =~= self.dates@);
            assert(is_regular@ =~= self.is_regular@);
        }
        Schedule {
            pricing_context: self.pricing_context,
            dates,
            calendar: self.calendar,
            convention: self.convention,
            termination_date_convention: self.termination_date_convention,
            tenor: self.tenor,
            rule: self.rule,
            end_of_month: self.end_of_month,
            is_regular,
            first_date: self.first_date,
            next_to_last_date: self.next_to_last_date,
        }
    }
}

impl Schedule {
    /// Size of the schedule, i.e. the number of dates.
    pub fn size(&self) -> (r: usize)
        ensures
            r == self@.dates.len(),
            r == self@.is_regular.len() + 1,
            r >= 2,
    {
        proof {
            use_type_invariant(self);
        }
        self.dates.len()
    }

    /// The i-th schedule date.
    pub fn date(&self, i: usize) -> (r: &Date)
        requires
            i < self@.dates.len(),
        ensures
            r@ == self@.dates[i as int],
    {
        &self.dates[i]
    }

    /// The date that lookups start from: `ref_date`, or the evaluation date in place of the
    /// null date.
    pub open spec fn reference(&self, ref_date: int) -> int {
        if ref_date == null_serial() {
            self@.eval_date
        } else {
            ref_date
        }
    }

    /// Index of the first date that is not before the reference date; the size of the
    /// schedule when there is none.
    fn lower_bound(&self, ref_date: &Date) -> (r: usize)
        ensures
            r == first_not_before(self@.dates, self.reference(ref_date@), 0),
            r <= self@.dates.len(),
    {
        let d = if ref_date.serial_number() == MINIMUM_SERIAL_NUMBER {
            self.pricing_context.eval_date
        } else {
            *ref_date
        };
        let ghost x = self.reference(ref_date@);
        let n = self.dates.len();
        let mut i: usize = 0;
        while i < n
            invariant
                i <= n,
                n == self.dates.len(),
                n == self@.dates.len(),
                x == self.reference(ref_date@),
                d@ == x,
                first_not_before(self@.dates, x, 0) == first_not_before(self@.dates, x, i as int),
            decreases n - i,
        {
            proof {
                assert(self@.dates[i as int] == self.dates@[i as int]@);
            }
            if self.dates[i].serial_number() >= d.serial_number() {
                return i;
            }
            i = i + 1;
        }
        i
    }

    /// Return the first date in the schedule that is not before `ref_date` (the evaluation
    /// date when `ref_date` is the null date); the null date when there is none.  With the
    /// dates in increasing order, that is the earliest of them not before `ref_date`.
    pub fn next_date(&self, ref_date: &Date) -> (r: Date)
        ensures
            ({
                let i = first_not_before(self@.dates, self.reference(ref_date@), 0);
                r@ == (if i < self@.dates.len() {
                    self@.dates[i]
                } else {
                    null_serial()
                })
            }),
            increasing(self@.dates) ==> forall|j: int|
                0 <= j < self@.dates.len() && self@.dates[j] >= self.reference(ref_date@) ==> r@
                    <= #[trigger] self@.dates[j],
    {
        proof {
            lemma_lookup_index(self@, self.reference(ref_date@));
        }
        let i = self.lower_bound(ref_date);
        if i != self.dates.len() {
            proof {
                assert(self@.dates[i as int] == self.dates@[i as int]@);
            }
            self.dates[i]
        } else {
            Date::default()
        }
    }

    /// Return the date in the schedule just before the first one that is not before
    /// `ref_date` (the evaluation date when `ref_date` is the null date); the null date when
    /// there is none.  With the dates in increasing order, that is the latest of them before
    /// `ref_date`.
    pub fn previous_date(&self, ref_date: &Date) -> (r: Date)
        ensures
            ({
                let i = first_not_before(self@.dates, self.reference(ref_date@), 0);
                r@ == (if i > 0 {
                    self@.dates[i - 1]
                } else {
                    null_serial()
                })
            }),
            increasing(self@.dates) ==> forall|j: int|
                0 <= j < self@.dates.len() && self@.dates[j] < self.reference(ref_date@) ==> r@
                    >= #[trigger] self@.dates[j],
    {
        proof {
            lemma_lookup_index(self@, self.reference(ref_date@));
        }
        let i = self.lower_bound(ref_date);
        if i != 0 {
            proof {
                assert(self@.dates[i - 1] == self.dates@[i - 1]@);
            }
            self.dates[i - 1]
        } else {
            Date::default()
        }
    }

    /// Whether the regularity of the periods is known.
    pub fn has_is_regular(&self) -> (r: bool)
        ensures
            r == (self@.is_regular.len() > 0),
            r,
    {
        proof {
            use_type_invariant(self);
        }
        !self.is_regular.is_empty()
    }

    /// Whether the `i`-th period (1-based), the one ending at the `i`-th date after the first,
    /// is regular.
    pub fn is_regular(&self, i: usize) -> (r: bool)
        requires
            1 <= i <= self@.is_regular.len(),
        ensures
            r == self@.is_regular[i - 1],
    {
        self.is_regular[i - 1]
    }

    /// Check whether the schedule has been constructed or not.
    pub fn empty(&self) -> (r: bool)
        ensures
            r == (self@.dates.len() == 0),
            !r,
    {
        proof {
            use_type_invariant(self);
        }
        self.dates.is_empty()
    }

    /// Return the first date of the schedule.
    pub fn start_date(&self) -> (r: &Date)
        ensures
            r@ == self@.dates[0],
    {
        proof {
            use_type_invariant(self);
        }
        &self.dates[0]
    }

    /// The dates of the schedule.
    pub fn dates(&self) -> (r: Vec<Date>)
        ensures
            serials(r@) == self@.dates,
            r.len() == self@.dates.len(),
    {
        let r = self.dates.clone();
        proof {
            assert(r@ =~= self.dates@);
        }
        r
    }

    /// The calendar the dates are adjusted in.
    pub fn calendar(&self) -> (r: Calendar)
        ensures
            r == self@.calendar,
    {
        self.calendar
    }

    /// The tenor between regular dates.
    pub fn tenor(&self) -> (r: Period)
        ensures
            r == self@.tenor,
            r.length >= 0,
    {
        proof {
            use_type_invariant(self);
        }
        self.tenor
    }

    /// The business day convention of the dates.
    pub fn business_day_convention(&self) -> (r: BusinessDayConvention)
        ensures
            r == self@.convention,
    {
        self.convention
    }

    /// The business day convention of the termination date.
    pub fn termination_date_business_day_convention(&self) -> (r: BusinessDayConvention)
        ensures
            r == self@.termination_date_convention,
    {
        self.termination_date_convention
    }

    /// The date generation rule.
    pub fn rule(&self) -> (r: DateGenerationRule)
        ensures
            r == self@.rule,
    {
        self.rule
    }

    /// Whether the end-of-month convention applies.
    pub fn end_of_month(&self) -> (r: bool)
        ensures
            r == self@.end_of_month,
    {
        self.end_of_month
    }

    /// Return the last date of the schedule.
    pub fn end_date(&self) -> (r: &Date)
        ensures
            r@ == self@.dates.last(),
    {
        proof {
            use_type_invariant(self);
        }
        &self.dates[self.dates.len() - 1]
    }
}

/// The elements of `v` from index `lo` up to, not including, index `hi`.
fn copy_range<T: Copy>(v: &Vec<T>, lo: usize, hi: usize) -> (r: Vec<T>)
    requires
        lo <= hi <= v.len(),
    ensures
        r@ == v@.subrange(lo as int, hi as int),
{
    let mut r: Vec<T> = Vec::new();
    let mut i = lo;
    while i < hi
        invariant
            lo <= i <= hi,
            hi <= v.len(),
            r@ == v@.subrange(lo as int, i as int),
        decreases hi - i,
    {
        r.push(v[i]);
        proof {
            assert(r@ =~= v@.subrange(lo as int, i + 1));
        }
        i = i + 1;
    }
    r
}

impl Schedule {
    /// Truncate schedule, i.e. remove dates strictly before the given `truncation_date`. That is,
    /// produce a new schedule with dates greater than or equal to the `truncation_date`.
    pub fn after(&self, truncation_date: &Date) -> (r: Self)
        requires
            truncation_date@ < self@.dates.last(),
        ensures
            r@ == after_spec(self@, truncation_date@),
            r@.dates.len() >= 2,
            r@.is_regular.len() + 1 == r@.dates.len(),
    {
        proof {
            use_type_invariant(self);
        }
        let t = *truncation_date;
        let ts = t.serial_number();
        let n = self.dates.len();
        proof {
            assert(self@.dates[0] == self.dates@[0]@);
            assert(self@.dates[n - 1] == self.dates@[n - 1]@);
        }
        if ts <= self.dates[0].serial_number() {
            return self.clone();
        }
        let ghost m = self@;
        let mut k: usize = 0;
        while self.dates[k].serial_number() < ts
            invariant
                k < n,
                n == self.dates.len(),
                n == m.dates.len(),
                m == self@,
                ts < m.dates[n - 1],
                ts == t@,
                first_not_before(m.dates, ts as int, 0) == first_not_before(m.dates, ts as int, k as int),
            decreases n - k,
        {
            proof {
                assert(m.dates[k as int] == self.dates@[k as int]@);
            }
            k = k + 1;
        }
        proof {
            assert(m.dates[k as int] == self.dates@[k as int]@);
            assert(first_not_before(m.dates, ts as int, k as int) == k);
        }
        let tail = copy_range(&self.dates, k, n);
        let tail_reg = copy_range(&self.is_regular, k, n - 1);
        let missing = ts != self.dates[k].serial_number();
        let mut dates: Vec<Date> = Vec::new();
        let mut is_regular: Vec<bool> = Vec::new();
        if missing {
            dates.push(t);
            is_regular.push(false);
        }
        let mut dates = dates;
        let mut tail = tail;
        dates.append(&mut tail);
        let mut tail_reg = tail_reg;
        is_regular.append(&mut tail_reg);
        proof {
            let d1 = m.dates.subrange(k as int, n as int);
            assert(serials(self.dates@.subrange(k as int, n as int)) =~= d1);
            if missing {
                assert(serials(dates@) =~= seq![t@] + d1);
                assert(is_regular@ =~= seq![false] + self.is_regular@.subrange(k as int, n - 1));
            } else {
                assert(serials(dates@) =~= d1);
                assert(is_regular@ =~= self.is_regular@.subrange(k as int, n - 1));
            }
        }
        Schedule {
            pricing_context: self.pricing_context,
            dates,
            calendar: self.calendar,
            convention: self.convention,
            termination_date_convention: if missing {
                BusinessDayConvention::Unadjusted
            } else {
                self.termination_date_convention
            },
            tenor: self.tenor,
            rule: self.rule,
            end_of_month: self.end_of_month,
            is_regular,
            first_date: if self.first_date.serial_number() <= ts {
                Date::default()
            } else {
                self.first_date
            },
            next_to_last_date: if self.next_to_last_date.serial_number() <= ts {
                Date::default()
            } else {
                self.next_to_last_date
            },
        }
    }

    /// Truncate schedule, i.e. remove dates strictly after the given `truncation_date`. That is,
    /// produce a new schedule with dates up to the `truncation_date`.
    pub fn until(&self, truncation_date: &Date) -> (r: Self)
        requires
            truncation_date@ > self@.dates[0],
        ensures
            r@ == until_spec(self@, truncation_date@),
            r@.dates.len() >= 2,
            r@.is_regular.len() + 1 == r@.dates.len(),
    {
        proof {
            use_type_invariant(self);
        }
        let t = *truncation_date;
        let ts = t.serial_number();
        let n = self.dates.len();
        proof {
            assert(self@.dates[0] == self.dates@[0]@);
            assert(self@.dates[n - 1] == self.dates@[n - 1]@);
        }
        if ts >= self.dates[n - 1].serial_number() {
            return self.clone();
        }
        let ghost m = self@;
        let mut c: usize = n;
        while self.dates[c - 1].serial_number() > ts
            invariant
                1 <= c <= n,
                n == self.dates.len(),
                n == m.dates.len(),
                m == self@,
                ts > m.dates[0],
                ts == t@,
                kept_through(m.dates, ts as int, n as int) == kept_through(m.dates, ts as int, c as int),
            decreases c,
        {
            proof {
                assert(m.dates[c - 1] == self.dates@[c - 1]@);
                assert(m.dates[0] == self.dates@[0]@);
            }
            c = c - 1;
        }
        proof {
            assert(m.dates[c - 1] == self.dates@[c - 1]@);
            assert(kept_through(m.dates, ts as int, c as int) == c);
        }
        let mut dates = copy_range(&self.dates, 0, c);
        let mut is_regular = copy_range(&self.is_regular, 0, c - 1);
        let missing = ts != self.dates[c - 1].serial_number();
        let ghost d1 = serials(dates@);
        let ghost r1 = is_regular@;
        proof {
            assert(d1 =~= m.dates.take(c as int));
            assert(r1 =~= m.is_regular.take(c - 1));
        }
        if missing {
            dates.push(t);
            is_regular.push(false);
            proof {
                assert(serials(dates@) =~= d1.push(t@));
            }
        }
        Schedule {
            pricing_context: self.pricing_context,
            dates,
            calendar: self.calendar,
            convention: self.convention,
            termination_date_convention: if missing {
                BusinessDayConvention::Unadjusted
            } else {
                self.termination_date_convention
            },
            tenor: self.tenor,
            rule: self.rule,
            end_of_month: self.end_of_month,
            is_regular,
            first_date: if self.first_date.serial_number() >= ts {
                Date::default()
            } else {
                self.first_date
            },
            next_to_last_date: if self.next_to_last_date.serial_number() >= ts {
                Date::default()
            } else {
                self.next_to_last_date
            },
        }
    }
}

/// What a schedule builder holds, with dates as serial numbers.
pub struct ScheduleBuilderModel {
    pub eval_date: int,
    pub effective_date: int,
    pub termination_date: int,
    pub tenor: Period,
    pub calendar: Calendar,
    pub convention: Option<BusinessDayConvention>,
    pub termination_date_convention: Option<BusinessDayConvention>,
    pub date_generation_rule: Option<DateGenerationRule>,
    pub end_of_month: bool,
    pub first_date: int,
    pub next_to_last_date: int,
}

/// The schedule a builder builds: the business day convention defaults to following, the
/// termination convention to the business day convention, and the rule to backward.
pub open spec fn built_schedule(m: ScheduleBuilderModel) -> Result<ScheduleModel, ScheduleError> {
    let convention = match m.convention {
        Some(c) => c,
        None => BusinessDayConvention::Following,
    };
    let termination_convention = match m.termination_date_convention {
        Some(c) => c,
        None => convention,
    };
    let rule = match m.date_generation_rule {
        Some(r) => r,
        None => DateGenerationRule::Backward,
    };
    schedule_outcome(
        m.eval_date,
        m.effective_date,
        m.termination_date,
        m.tenor,
        m.calendar,
        convention,
        termination_convention,
        rule,
        m.end_of_month,
        m.first_date,
        m.next_to_last_date,
    )
}

/// A builder builds the schedule that [Schedule::new] builds from its settings, those never
/// set taking their defaults: the following convention, the business day convention for the
/// termination date, the backward rule (end of month off and null first and next to last
/// dates are what [ScheduleBuilder::new] starts from); so one succeeds exactly when the
/// other does, with the same dates and regularity flags.
pub proof fn lemma_build_is_new(m: ScheduleBuilderModel)
    ensures
        built_schedule(m) == schedule_outcome(
            m.eval_date,
            m.effective_date,
            m.termination_date,
            m.tenor,
            m.calendar,
            m.convention.unwrap_or(BusinessDayConvention::Following),
            m.termination_date_convention.unwrap_or(
                m.convention.unwrap_or(BusinessDayConvention::Following),
            ),
            m.date_generation_rule.unwrap_or(DateGenerationRule::Backward),
            m.end_of_month,
            m.first_date,
            m.next_to_last_date,
        ),
{
}

/// Schedule Builder
pub struct ScheduleBuilder {
    pricing_context: PricingContext,
    effective_date: Date,
    termination_date: Date,
    tenor: Period,
    calendar: Calendar,
    convention: Option<BusinessDayConvention>,
    termination_date_convention: Option<BusinessDayConvention>,
    date_generation_rule: Option<DateGenerationRule>,
    end_of_month: bool,
    first_date: Date,
    next_to_last_date: Date,
}

impl View for ScheduleBuilder {
    type V = ScheduleBuilderModel;

    closed spec fn view(&self) -> ScheduleBuilderModel {
        ScheduleBuilderModel {
            eval_date: self.pricing_context.eval_date@,
            effective_date: self.effective_date@,
            termination_date: self.termination_date@,
            tenor: self.tenor,
            calendar: self.calendar,
            convention: self.convention,
            termination_date_convention: self.termination_date_convention,
            date_generation_rule: self.date_generation_rule,
            end_of_month: self.end_of_month,
            first_date: self.first_date@,
            next_to_last_date: self.next_to_last_date@,
        }
    }
}

impl ScheduleBuilder {
    /// Construct the Builder from the mandatory parameters
    pub fn new(
        pricing_context: PricingContext,
        effective_date: Date,
        termination_date: Date,
        tenor: Period,
        calendar: Calendar,
    ) -> (r: Self)
        ensures
            r@ == (ScheduleBuilderModel {
                eval_date: pricing_context.eval_date@,
                effective_date: effective_date@,
                termination_date: termination_date@,
                tenor,
                calendar,
                convention: None,
                termination_date_convention: None,
                date_generation_rule: None,
                end_of_month: false,
                first_date: null_serial(),
                next_to_last_date: null_serial(),
            }),
    {
        Self {
            pricing_context,
            effective_date,
            termination_date,
            tenor,
            calendar,
            convention: None,
            termination_date_convention: None,
            date_generation_rule: None,
            end_of_month: false,
            first_date: Date::default(),
            next_to_last_date: Date::default(),
        }
    }

    /// Set business day convention
    pub fn with_convention(self, convention: BusinessDayConvention) -> (r: Self)
        ensures
            r@ == (ScheduleBuilderModel { convention: Some(convention), ..self@ }),
    {
        let mut b = self;
        b.convention = Some(convention);
        b
    }

    /// Set termination business day convention
    pub fn with_termination_convention(
        self,
        termination_date_convention: BusinessDayConvention,
    ) -> (r: Self)
        ensures
            r@ == (ScheduleBuilderModel {
                termination_date_convention: Some(termination_date_convention),
                ..self@
            }),
    {
        let mut b = self;
        b.termination_date_convention = Some(termination_date_convention);
        b
    }

    /// Set date generation rule
    pub fn with_rule(self, rule: DateGenerationRule) -> (r: Self)
        ensures
            r@ == (ScheduleBuilderModel { date_generation_rule: Some(rule), ..self@ }),
    {
        let mut b = self;
        b.date_generation_rule = Some(rule);
        b
    }

    /// Construct schedule with [DateGenerationRule::Forward]
    pub fn forwards(self) -> (r: Self)
        ensures
            r@ == (ScheduleBuilderModel {
                date_generation_rule: Some(DateGenerationRule::Forward),
                ..self@
            }),
    {
        let mut b = self;
        b.date_generation_rule = Some(DateGenerationRule::Forward);
        b
    }

    /// Construct schedule with [DateGenerationRule::Backward]
    pub fn backwards(self) -> (r: Self)
        ensures
            r@ == (ScheduleBuilderModel {
                date_generation_rule: Some(DateGenerationRule::Backward),
                ..self@
            }),
    {
        let mut b = self;
        b.date_generation_rule = Some(DateGenerationRule::Backward);
        b
    }

    /// Set end of month
    pub fn with_end_of_month(self, end_of_month: bool) -> (r: Self)
        ensures
            r@ == (ScheduleBuilderModel { end_of_month, ..self@ }),
    {
        let mut b = self;
        b.end_of_month = end_of_month;
        b
    }

    /// Set the first date
    pub fn with_first_date(self, first_date: Date) -> (r: Self)
        ensures
            r@ == (ScheduleBuilderModel { first_date: first_date@, ..self@ }),
    {
        let mut b = self;
        b.first_date = first_date;
        b
    }

    /// Set the next to last date
    pub fn with_next_to_last_date(self, next_to_last_date: Date) -> (r: Self)
        ensures
            r@ == (ScheduleBuilderModel { next_to_last_date: next_to_last_date@, ..self@ }),
    {
        let mut b = self;
        b.next_to_last_date = next_to_last_date;
        b
    }

    /// Build the [Schedule], or report why it cannot be built.
    pub fn try_build(self) -> (r: Result<Schedule, ScheduleError>)
        ensures
            schedule_result(r) == built_schedule(self@),
            r matches Ok(s) ==> s@.dates.len() >= 2 && s@.is_regular.len() + 1 == s@.dates.len(),
    {
        let convention = match self.convention {
            Some(c) => c,
            None => BusinessDayConvention::Following,
        };
        let termination_date_convention = match self.termination_date_convention {
            Some(c) => c,
            None => convention,
        };
        let date_generation_rule = match self.date_generation_rule {
            Some(r) => r,
            None => DateGenerationRule::Backward,
        };
        Schedule::try_new(
            self.pricing_context,
            self.effective_date,
            self.termination_date,
            self.tenor,
            self.calendar,
            convention,
            termination_date_convention,
            date_generation_rule,
            self.end_of_month,
            self.first_date,
            self.next_to_last_date,
        )
    }

    /// Build the [Schedule]
    pub fn build(self) -> (r: Schedule)
        requires
            built_schedule(self@) is Ok,
        ensures
            built_schedule(self@) == Ok::<ScheduleModel, ScheduleError>(r@),
            r@.dates.len() >= 2,
            r@.is_regular.len() + 1 == r@.dates.len(),
    {
        self.try_build().unwrap()
    }
}

} // verus!
