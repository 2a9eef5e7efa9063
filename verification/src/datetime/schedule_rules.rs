use vstd::prelude::*;

use crate::datetime::businessdayconvention::BusinessDayConvention;
use crate::datetime::calendar::Calendar;
use crate::datetime::date::{
    advanced_serial, can_advance, is_leap_year, month_days, month_of_serial, serial_of,
    year_of_serial, ymd_of_serial, MINIMUM_SERIAL_NUMBER,
};
use crate::datetime::dategenerationrule::DateGenerationRule;
use crate::datetime::holiday::Holiday;
use crate::datetime::holidays::nilholiday::NilHoliday;
use crate::datetime::imm::{is_imm_date_spec, third_wednesday};
use crate::datetime::period::Period;
use crate::datetime::timeunit::TimeUnit;
use crate::datetime::weekend::{NilWeekend, Weekend};

verus! {

/// Why no schedule could be built from the given dates and rules.
#[derive(Clone, Copy, Debug, PartialEq, Eq, Structural)]
pub enum ScheduleError {
    /// The termination date is the null date.
    NullTerminationDate,
    /// Without an effective date, the evaluation date must come before the termination date.
    EvaluationDateNotBeforeTermination,
    /// The effective date is the null date.
    NullEffectiveDate,
    /// The effective date is not before the termination date.
    EffectiveDateNotBeforeTermination,
    /// The tenor is negative.
    NegativeTenor,
    /// The first date is not after the effective date and at or before the termination date.
    FirstDateOutOfRange,
    /// The first date of a third-Wednesday schedule is not an IMM date.
    FirstDateNotImm,
    /// A first date was given with a rule that does not take one.
    FirstDateIncompatible,
    /// The next to last date is not at or after the effective date and before the
    /// termination date.
    NextToLastDateOutOfRange,
    /// The next to last date of a third-Wednesday schedule is not an IMM date.
    NextToLastDateNotImm,
    /// A next to last date was given with a rule that does not take one.
    NextToLastDateIncompatible,
    /// The end-of-month convention was asked for with a rule other than forward or backward.
    EndOfMonthIncompatible,
    /// Building the schedule would need a date outside the range of dates.
    DateOutOfRange,
    /// The dates collapse into a single date.
    Degenerate,
}

/// Serial number of the null date, the default date.
pub open spec fn null_serial() -> int {
    MINIMUM_SERIAL_NUMBER as int
}

/// The calendar in which every day is a business day.
pub open spec fn null_calendar() -> Calendar {
    Calendar { holiday: Holiday::NilHoliday(NilHoliday { weekend: Weekend::NilWeekend(NilWeekend {}) }) }
}

/// A tenor admits the end-of-month convention when it is at least one month long and made
/// of months or years.
pub open spec fn allows_end_of_month_spec(tenor: Period) -> bool {
    (tenor.unit == TimeUnit::Months || tenor.unit == TimeUnit::Years) && tenor.length >= 1
}

/// The rules that generate dates on the 20th of (some) months.
pub open spec fn is_twentieth_rule(rule: DateGenerationRule) -> bool {
    rule == DateGenerationRule::Twentieth || rule == DateGenerationRule::TwentiethIMM || rule
        == DateGenerationRule::OldCDS || rule == DateGenerationRule::CDS || rule
        == DateGenerationRule::CDS2015
}

/// The rules whose 20ths fall in March, June, September and December only.
pub open spec fn is_imm_twentieth_rule(rule: DateGenerationRule) -> bool {
    rule == DateGenerationRule::TwentiethIMM || rule == DateGenerationRule::OldCDS || rule
        == DateGenerationRule::CDS || rule == DateGenerationRule::CDS2015
}

/// The serial number `n` units away from serial number `s`, when it lies in the range of
/// dates.
pub open spec fn shifted(s: int, n: int, unit: TimeUnit) -> Option<int> {
    if can_advance(s, n, unit) {
        Some(advanced_serial(s, n, unit))
    } else {
        None
    }
}

/// The 20th of the month of the date with serial number `s`, or of the month before when that
/// 20th is later than the date; with the IMM rules, moved back further to the closest March,
/// June, September or December.
#[verifier::opaque]
pub open spec fn previous_twentieth_spec(s: int, rule: DateGenerationRule) -> Option<int> {
    let t = ymd_of_serial(s);
    let r0 = serial_of(t.0, t.1, 20);
    let r1 = if r0 > s {
        shifted(r0, -1, TimeUnit::Months)
    } else {
        Some(r0)
    };
    match r1 {
        None => None,
        Some(r) => {
            let m = month_of_serial(r);
            if is_imm_twentieth_rule(rule) && m % 3 != 0 {
                shifted(r, -(m % 3), TimeUnit::Months)
            } else {
                Some(r)
            }
        },
    }
}

/// The 20th of the month of the date with serial number `s`, or of the month after when that
/// 20th is earlier than the date; with the IMM rules, moved on to the closest March, June,
/// September or December.
pub open spec fn next_twentieth_spec(s: int, rule: DateGenerationRule) -> Option<int> {
    let t = ymd_of_serial(s);
    let r0 = serial_of(t.0, t.1, 20);
    let r1 = if r0 < s {
        shifted(r0, 1, TimeUnit::Months)
    } else {
        Some(r0)
    };
    match r1 {
        None => None,
        Some(r) => {
            let m = month_of_serial(r);
            if is_imm_twentieth_rule(rule) && m % 3 != 0 {
                shifted(r, 3 - m % 3, TimeUnit::Months)
            } else {
                Some(r)
            }
        },
    }
}

/// The date reached from serial number `s` by `n` units in the calendar without holidays,
/// where `n` must be a 32-bit integer.
pub open spec fn null_advanced(
    s: int,
    n: int,
    unit: TimeUnit,
    c: BusinessDayConvention,
    eom: bool,
) -> Option<int> {
    if i32::MIN <= n <= i32::MAX {
        null_calendar().advanced(s, n, unit, c, eom)
    } else {
        None
    }
}

/// Whether `a` and `b` stay apart once both are adjusted by `c`; `None` when an adjustment
/// leaves the range of dates.
pub open spec fn apart_after_adjustment(
    cal: Calendar,
    a: int,
    b: int,
    c: BusinessDayConvention,
) -> Option<bool> {
    match (cal.adjusted(a, c), cal.adjusted(b, c)) {
        (Some(x), Some(y)) => Some(x != y),
        _ => None,
    }
}

/// Truncating division, as integers divide in Rust.
pub open spec fn quotient_toward_zero(a: int, b: int) -> int {
    if a >= 0 {
        a / b
    } else {
        -((-a) / b)
    }
}

/// The effective date to build from: the given one, or, for a backward schedule with
/// neither an effective date nor a first date, one that stands in for it.
pub open spec fn effective_date_spec(
    eval: int,
    effective: int,
    termination: int,
    rule: DateGenerationRule,
    first: int,
    next_to_last: int,
) -> Result<int, ScheduleError> {
    if effective == null_serial() && first == null_serial() && rule
        == DateGenerationRule::Backward {
        if !(eval < termination) {
            Err(ScheduleError::EvaluationDateNotBeforeTermination)
        } else if next_to_last != null_serial() {
            let y = quotient_toward_zero(next_to_last - eval, 366) + 1;
            match shifted(next_to_last, -y, TimeUnit::Years) {
                None => Err(ScheduleError::DateOutOfRange),
                Some(e) => Ok(e),
            }
        } else {
            Ok(effective)
        }
    } else if effective == null_serial() {
        Err(ScheduleError::NullEffectiveDate)
    } else {
        Ok(effective)
    }
}

/// The check of a first date (`is_first`) or next to last date against the rule and the
/// range of the schedule.
pub open spec fn stub_date_error(
    rule: DateGenerationRule,
    is_first: bool,
    d: int,
    effective: int,
    termination: int,
) -> Option<ScheduleError> {
    if d == null_serial() {
        None
    } else {
        match rule {
            DateGenerationRule::Backward | DateGenerationRule::Forward => {
                if is_first && !(effective < d && d <= termination) {
                    Some(ScheduleError::FirstDateOutOfRange)
                } else if !is_first && !(effective <= d && d < termination) {
                    Some(ScheduleError::NextToLastDateOutOfRange)
                } else {
                    None
                }
            },
            DateGenerationRule::ThirdWednesday => {
                if is_imm_date_spec(d, false) {
                    None
                } else if is_first {
                    Some(ScheduleError::FirstDateNotImm)
                } else {
                    Some(ScheduleError::NextToLastDateNotImm)
                }
            },
            _ => {
                if is_first {
                    Some(ScheduleError::FirstDateIncompatible)
                } else {
                    Some(ScheduleError::NextToLastDateIncompatible)
                }
            },
        }
    }
}

/// The checks made before any date is generated; on success, the effective date and the rule
/// to build with (a zero tenor asks for the `Zero` rule).
pub open spec fn validated_inputs(
    eval: int,
    effective: int,
    termination: int,
    tenor: Period,
    rule: DateGenerationRule,
    first: int,
    next_to_last: int,
) -> Result<(int, DateGenerationRule), ScheduleError> {
    let first_n = if first == effective {
        null_serial()
    } else {
        first
    };
    let ntl_n = if next_to_last == termination {
        null_serial()
    } else {
        next_to_last
    };
    if termination == null_serial() {
        Err(ScheduleError::NullTerminationDate)
    } else {
        match effective_date_spec(eval, effective, termination, rule, first, next_to_last) {
            Err(e) => Err(e),
            Ok(eff) => {
                if !(eff < termination) {
                    Err(ScheduleError::EffectiveDateNotBeforeTermination)
                } else if tenor.length < 0 {
                    Err(ScheduleError::NegativeTenor)
                } else {
                    let rule_n = if tenor.length == 0 {
                        DateGenerationRule::Zero
                    } else {
                        rule
                    };
                    match stub_date_error(rule_n, true, first_n, eff, termination) {
                        Some(e) => Err(e),
                        None => match stub_date_error(rule_n, false, ntl_n, eff, termination) {
                            Some(e) => Err(e),
                            None => Ok((eff, rule_n)),
                        },
                    }
                }
            },
        }
    }
}

/// The fixed parameters of date generation.
pub struct GenParams {
    pub calendar: Calendar,
    pub convention: BusinessDayConvention,
    pub termination_convention: BusinessDayConvention,
    pub tenor: Period,
    pub rule: DateGenerationRule,
    pub end_of_month: bool,
    pub effective: int,
    pub termination: int,
    pub first: int,
    pub next_to_last: int,
}

/// Dates of a schedule being built, and the regularity of the periods between them.
pub type GenState = (Seq<int>, Seq<bool>);

/// The backward rule: the start, from the termination date and the next to last date.
pub open spec fn backward_start(p: GenParams) -> Result<(GenState, int), ScheduleError> {
    if p.next_to_last != null_serial() {
        match null_advanced(
            p.termination,
            -p.tenor.length,
            p.tenor.unit,
            p.convention,
            p.end_of_month,
        ) {
            None => Err(ScheduleError::DateOutOfRange),
            Some(t) => Ok(
                ((seq![p.next_to_last, p.termination], seq![t == p.next_to_last]), p.next_to_last),
            ),
        }
    } else {
        Ok(((seq![p.termination], seq![]), p.termination))
    }
}

/// The backward rule: the dates `k`, `k + 1`, ... tenors before the seed, each put in front
/// unless it adjusts to the current first date, until one falls before the exit date (the
/// first date when there is one, else the effective date).
pub open spec fn backward_steps(p: GenParams, seed: int, k: int, st: GenState) -> Result<
    GenState,
    ScheduleError,
>
    decreases i32::MAX - k,
{
    let exit = if p.first != null_serial() {
        p.first
    } else {
        p.effective
    };
    let (dates, reg) = st;
    if !(1 <= k <= i32::MAX) || dates.len() == 0 {
        Err(ScheduleError::DateOutOfRange)
    } else {
        match null_advanced(seed, -(k * p.tenor.length), p.tenor.unit, p.convention, p.end_of_month) {
            None => Err(ScheduleError::DateOutOfRange),
            Some(t) => {
                if t < exit {
                    if p.first != null_serial() {
                        match apart_after_adjustment(p.calendar, dates[0], p.first, p.convention) {
                            None => Err(ScheduleError::DateOutOfRange),
                            Some(true) => Ok((seq![p.first] + dates, seq![false] + reg)),
                            Some(false) => Ok(st),
                        }
                    } else {
                        Ok(st)
                    }
                } else {
                    match apart_after_adjustment(p.calendar, dates[0], t, p.convention) {
                        None => Err(ScheduleError::DateOutOfRange),
                        Some(apart) => {
                            let next = if apart {
                                (seq![t] + dates, seq![true] + reg)
                            } else {
                                st
                            };
                            if k == i32::MAX {
                                Err(ScheduleError::DateOutOfRange)
                            } else {
                                backward_steps(p, seed, k + 1, next)
                            }
                        },
                    }
                }
            },
        }
    }
}

/// The backward rule: the effective date in front, unless it adjusts to the first date.
pub open spec fn backward_finish(p: GenParams, st: GenState) -> Result<GenState, ScheduleError> {
    let (dates, reg) = st;
    match apart_after_adjustment(p.calendar, dates[0], p.effective, p.convention) {
        None => Err(ScheduleError::DateOutOfRange),
        Some(true) => Ok((seq![p.effective] + dates, seq![false] + reg)),
        Some(false) => Ok(st),
    }
}

/// The forward rules: the effective date, or for the CDS rules the 20th before it (after the
/// 20th three months earlier when the first adjusts to a later day than the effective date).
pub open spec fn forward_head(p: GenParams) -> Result<GenState, ScheduleError> {
    if p.rule == DateGenerationRule::CDS || p.rule == DateGenerationRule::CDS2015 {
        match previous_twentieth_spec(p.effective, p.rule) {
            None => Err(ScheduleError::DateOutOfRange),
            Some(p20) => match p.calendar.adjusted(p20, p.convention) {
                None => Err(ScheduleError::DateOutOfRange),
                Some(a) => if a > p.effective {
                    match shifted(p20, -3, TimeUnit::Months) {
                        None => Err(ScheduleError::DateOutOfRange),
                        Some(q) => Ok((seq![q, p20], seq![true])),
                    }
                } else {
                    Ok((seq![p20], seq![]))
                },
            },
        }
    } else {
        Ok((seq![p.effective], seq![]))
    }
}

/// The forward rules: the first dates and the seed to step from.
pub open spec fn forward_start(p: GenParams) -> Result<(GenState, int), ScheduleError> {
    let head = forward_head(p);
    match head {
        Err(e) => Err(e),
        Ok(st) => {
            let (dates, reg) = st;
            let seed = dates.last();
            if p.first != null_serial() {
                match null_advanced(
                    seed,
                    p.tenor.length as int,
                    p.tenor.unit,
                    p.convention,
                    p.end_of_month,
                ) {
                    None => Err(ScheduleError::DateOutOfRange),
                    Some(t) => Ok(((dates.push(p.first), reg.push(t == p.first)), p.first)),
                }
            } else if is_twentieth_rule(p.rule) {
                match next_twentieth_spec(p.effective, p.rule) {
                    None => Err(ScheduleError::DateOutOfRange),
                    Some(n0) => {
                        let n1 = if p.rule == DateGenerationRule::OldCDS && n0 - p.effective < 30 {
                            if n0 + 1 > crate::datetime::date::MAXIMUM_SERIAL_NUMBER {
                                None
                            } else {
                                next_twentieth_spec(n0 + 1, p.rule)
                            }
                        } else {
                            Some(n0)
                        };
                        match n1 {
                            None => Err(ScheduleError::DateOutOfRange),
                            Some(n) => if n != p.effective {
                                Ok(
                                    (
                                        (
                                            dates.push(n),
                                            reg.push(
                                                p.rule == DateGenerationRule::CDS || p.rule
                                                    == DateGenerationRule::CDS2015,
                                            ),
                                        ),
                                        n,
                                    ),
                                )
                            } else {
                                Ok((st, seed))
                            },
                        }
                    },
                }
            } else {
                Ok((st, seed))
            }
        },
    }
}

/// The forward rules: the dates `k`, `k + 1`, ... tenors after the seed, each appended unless
/// it adjusts to the current last date, until one falls after the exit date (the next to
/// last date when there is one, else the termination date).
pub open spec fn forward_steps(p: GenParams, seed: int, k: int, st: GenState) -> Result<
    GenState,
    ScheduleError,
>
    decreases i32::MAX - k,
{
    let exit = if p.next_to_last != null_serial() {
        p.next_to_last
    } else {
        p.termination
    };
    let (dates, reg) = st;
    if !(1 <= k <= i32::MAX) || dates.len() == 0 {
        Err(ScheduleError::DateOutOfRange)
    } else {
        match null_advanced(seed, k * p.tenor.length, p.tenor.unit, p.convention, p.end_of_month) {
            None => Err(ScheduleError::DateOutOfRange),
            Some(t) => {
                if t > exit {
                    if p.next_to_last != null_serial() {
                        match apart_after_adjustment(
                            p.calendar,
                            dates.last(),
                            p.next_to_last,
                            p.convention,
                        ) {
                            None => Err(ScheduleError::DateOutOfRange),
                            Some(true) => Ok((dates.push(p.next_to_last), reg.push(false))),
                            Some(false) => Ok(st),
                        }
                    } else {
                        Ok(st)
                    }
                } else {
                    match apart_after_adjustment(p.calendar, dates.last(), t, p.convention) {
                        None => Err(ScheduleError::DateOutOfRange),
                        Some(apart) => {
                            let next = if apart {
                                (dates.push(t), reg.push(true))
                            } else {
                                st
                            };
                            if k == i32::MAX {
                                Err(ScheduleError::DateOutOfRange)
                            } else {
                                forward_steps(p, seed, k + 1, next)
                            }
                        },
                    }
                }
            },
        }
    }
}

/// The forward rules: the termination date appended (or, for the 20th rules, the 20th after
/// it) unless the last date adjusts to it.
pub open spec fn forward_finish(p: GenParams, st: GenState) -> Result<GenState, ScheduleError> {
    let (dates, reg) = st;
    match apart_after_adjustment(
        p.calendar,
        dates.last(),
        p.termination,
        p.termination_convention,
    ) {
        None => Err(ScheduleError::DateOutOfRange),
        Some(false) => Ok(st),
        Some(true) => if is_twentieth_rule(p.rule) {
            match next_twentieth_spec(p.termination, p.rule) {
                None => Err(ScheduleError::DateOutOfRange),
                Some(n) => Ok((dates.push(n), reg.push(true))),
            }
        } else {
            Ok((dates.push(p.termination), reg.push(false)))
        },
    }
}

/// The unadjusted dates of the schedule, the regularity of its periods, and the seed the
/// generation ended with.
pub open spec fn generated(p: GenParams) -> Result<(GenState, int), ScheduleError> {
    if p.rule == DateGenerationRule::Zero {
        Ok(((seq![p.effective, p.termination], seq![true]), null_serial()))
    } else if p.rule == DateGenerationRule::Backward {
        match backward_start(p) {
            Err(e) => Err(e),
            Ok((st, seed)) => match backward_steps(p, seed, 1, st) {
                Err(e) => Err(e),
                Ok(st2) => match backward_finish(p, st2) {
                    Err(e) => Err(e),
                    Ok(st3) => Ok((st3, seed)),
                },
            },
        }
    } else if p.rule != DateGenerationRule::Forward && p.end_of_month {
        Err(ScheduleError::EndOfMonthIncompatible)
    } else {
        match forward_start(p) {
            Err(e) => Err(e),
            Ok((st, seed)) => match forward_steps(p, seed, 1, st) {
                Err(e) => Err(e),
                Ok(st2) => match forward_finish(p, st2) {
                    Err(e) => Err(e),
                    Ok(st3) => Ok((st3, seed)),
                },
            },
        }
    }
}

/// Serial number of the third Wednesday of the month of the date with serial number `s`.
pub open spec fn third_wednesday_of(s: int) -> int {
    third_wednesday(year_of_serial(s), month_of_serial(s))
}

/// The dates moved to the third Wednesday of their month: all of them with
/// `ThirdWednesdayInclusive`, all but the first and the last with `ThirdWednesday`.
pub open spec fn third_wednesday_dates(rule: DateGenerationRule, dates: Seq<int>) -> Seq<int> {
    let n = dates.len();
    if rule == DateGenerationRule::ThirdWednesday {
        Seq::new(
            n,
            |i: int|
                if 1 <= i < n - 1 {
                    third_wednesday_of(dates[i])
                } else {
                    dates[i]
                },
        )
    } else if rule == DateGenerationRule::ThirdWednesdayInclusive {
        dates.map_values(|s: int| third_wednesday_of(s))
    } else {
        dates
    }
}

/// Serial number of the last day of the month of the date with serial number `s`.
pub open spec fn month_end_of(s: int) -> int {
    let t = ymd_of_serial(s);
    serial_of(t.0, t.1, month_days(t.1, is_leap_year(t.0)))
}

/// The end of the month of the date with serial number `s`: its last day when `c` is
/// unadjusted, else its last business day.
#[verifier::opaque]
pub open spec fn month_end_date(cal: Calendar, c: BusinessDayConvention, s: int) -> Option<int> {
    if c == BusinessDayConvention::Unadjusted {
        Some(month_end_of(s))
    } else {
        cal.end_of_month_spec(s)
    }
}

/// The dates with every one but the first and the last moved to the end of its month.
pub open spec fn month_end_middle(cal: Calendar, c: BusinessDayConvention, dates: Seq<int>) -> Option<
    Seq<int>,
> {
    let n = dates.len();
    if forall|i: int| 1 <= i < n - 1 ==> (#[trigger] month_end_date(cal, c, dates[i])) is Some {
        Some(
            Seq::new(
                n,
                |i: int|
                    if 1 <= i < n - 1 {
                        month_end_date(cal, c, dates[i]).unwrap()
                    } else {
                        dates[i]
                    },
            ),
        )
    } else {
        None
    }
}

/// The dates with every one but the first and the last adjusted by `c`.
pub open spec fn adjusted_middle(cal: Calendar, c: BusinessDayConvention, dates: Seq<int>) -> Option<
    Seq<int>,
> {
    let n = dates.len();
    if forall|i: int| 1 <= i < n - 1 ==> (#[trigger] cal.adjusted(dates[i], c)) is Some {
        Some(
            Seq::new(
                n,
                |i: int|
                    if 1 <= i < n - 1 {
                        cal.adjusted(dates[i], c).unwrap()
                    } else {
                        dates[i]
                    },
            ),
        )
    } else {
        None
    }
}

/// The end-of-month adjustment of the first and last dates: both moved to the last business
/// day of their month unless the termination convention is unadjusted, in which case only
/// the effective date's end (the last date going backward, the first going forward) moves
/// to the last day of its month; skipped when the two would then coincide.
pub open spec fn month_end_ends(p: GenParams, dates: Seq<int>) -> Option<Seq<int>> {
    let n = dates.len();
    let ends: Option<(int, int)> = if p.termination_convention
        != BusinessDayConvention::Unadjusted {
        match (p.calendar.end_of_month_spec(dates[0]), p.calendar.end_of_month_spec(dates[n - 1])) {
            (Some(a), Some(b)) => Some((a, b)),
            _ => None,
        }
    } else if p.rule == DateGenerationRule::Backward {
        Some((dates[0], month_end_of(dates[n - 1])))
    } else {
        Some((month_end_of(dates[0]), dates[n - 1]))
    };
    match ends {
        None => None,
        Some((d1, d2)) => if d1 != d2 {
            Some(dates.update(0, d1).update(n - 1, d2))
        } else {
            Some(dates)
        },
    }
}

/// The business day adjustment: the first date (except for old CDS schedules) and the middle
/// dates by the convention; the last one too, by the convention, when the termination
/// convention is not unadjusted and the rule is not a CDS one.
pub open spec fn business_adjusted(p: GenParams, dates: Seq<int>) -> Option<Seq<int>> {
    let n = dates.len();
    let d0: Option<Seq<int>> = if p.rule != DateGenerationRule::OldCDS {
        match p.calendar.adjusted(dates[0], p.convention) {
            None => None,
            Some(a) => Some(dates.update(0, a)),
        }
    } else {
        Some(dates)
    };
    match d0 {
        None => None,
        Some(d1) => match adjusted_middle(p.calendar, p.convention, d1) {
            None => None,
            Some(d2) => if p.termination_convention != BusinessDayConvention::Unadjusted && p.rule
                != DateGenerationRule::CDS && p.rule != DateGenerationRule::CDS2015 {
                match p.calendar.adjusted(d2[n - 1], p.convention) {
                    None => None,
                    Some(a) => Some(d2.update(n - 1, a)),
                }
            } else {
                Some(d2)
            },
        },
    }
}

/// The generated dates after the third-Wednesday, end-of-month and business day adjustments.
pub open spec fn adjusted_dates(p: GenParams, seed: int, dates: Seq<int>) -> Result<
    Seq<int>,
    ScheduleError,
> {
    let tw = third_wednesday_dates(p.rule, dates);
    let eom: Option<bool> = if p.end_of_month {
        p.calendar.is_end_of_month_spec(seed)
    } else {
        Some(false)
    };
    match eom {
        None => Err(ScheduleError::DateOutOfRange),
        Some(true) => match month_end_middle(p.calendar, p.convention, tw) {
            None => Err(ScheduleError::DateOutOfRange),
            Some(m) => match month_end_ends(p, m) {
                None => Err(ScheduleError::DateOutOfRange),
                Some(e) => Ok(e),
            },
        },
        Some(false) => match business_adjusted(p, tw) {
            None => Err(ScheduleError::DateOutOfRange),
            Some(a) => Ok(a),
        },
    }
}

/// Removes a next to last date that is not before the last date, the last date taking its
/// place.
pub open spec fn without_late_date(st: GenState) -> GenState {
    let (dates, reg) = st;
    let n = dates.len();
    if n >= 2 && dates[n - 2] >= dates[n - 1] {
        let m = reg.len();
        let reg1 = if m >= 2 {
            reg.update(m - 2, dates[n - 2] == dates[n - 1])
        } else {
            reg
        };
        (dates.take(n - 2).push(dates[n - 1]), reg1.drop_last())
    } else {
        st
    }
}

/// Removes a second date that is not after the first date, the first date taking its place.
pub open spec fn without_early_date(st: GenState) -> Result<GenState, ScheduleError> {
    let (dates, reg) = st;
    if dates.len() >= 2 && dates[1] <= dates[0] {
        if reg.len() < 2 {
            Err(ScheduleError::Degenerate)
        } else {
            Ok(
                (
                    seq![dates[0]] + dates.subrange(2, dates.len() as int),
                    reg.update(1, dates[1] == dates[0]).drop_first(),
                ),
            )
        }
    } else {
        Ok(st)
    }
}

/// The final clean-up of a schedule's dates; a schedule needs two dates at least.
pub open spec fn trimmed(st: GenState) -> Result<GenState, ScheduleError> {
    match without_early_date(without_late_date(st)) {
        Err(e) => Err(e),
        Ok(st2) => if st2.0.len() <= 1 {
            Err(ScheduleError::Degenerate)
        } else {
            Ok(st2)
        },
    }
}

/// The dates of the schedule and the regularity of its periods, for generation parameters
/// that passed the checks.
pub open spec fn schedule_dates(p: GenParams) -> Result<GenState, ScheduleError> {
    match generated(p) {
        Err(e) => Err(e),
        Ok((st, seed)) => match adjusted_dates(p, seed, st.0) {
            Err(e) => Err(e),
            Ok(dates) => trimmed((dates, st.1)),
        },
    }
}

/// What a schedule holds, with dates as serial numbers.
#[verifier::ext_equal]
pub struct ScheduleModel {
    /// The evaluation date of the pricing context.
    pub eval_date: int,
    pub dates: Seq<int>,
    pub calendar: Calendar,
    pub convention: BusinessDayConvention,
    pub termination_date_convention: BusinessDayConvention,
    pub tenor: Period,
    pub rule: DateGenerationRule,
    pub end_of_month: bool,
    /// Whether the period ending at each date but the first is regular.
    pub is_regular: Seq<bool>,
    pub first_date: int,
    pub next_to_last_date: int,
}

/// The schedule built from the given dates and rules, or why there is none.
pub open spec fn schedule_outcome(
    eval: int,
    effective: int,
    termination: int,
    tenor: Period,
    calendar: Calendar,
    convention: BusinessDayConvention,
    termination_convention: BusinessDayConvention,
    rule: DateGenerationRule,
    end_of_month: bool,
    first: int,
    next_to_last: int,
) -> Result<ScheduleModel, ScheduleError> {
    let first_n = if first == effective {
        null_serial()
    } else {
        first
    };
    let ntl_n = if next_to_last == termination {
        null_serial()
    } else {
        next_to_last
    };
    let eom_n = allows_end_of_month_spec(tenor) && end_of_month;
    match validated_inputs(eval, effective, termination, tenor, rule, first, next_to_last) {
        Err(e) => Err(e),
        Ok((eff, rule_n)) => {
            let p = GenParams {
                calendar,
                convention,
                termination_convention,
                tenor,
                rule: rule_n,
                end_of_month: eom_n,
                effective: eff,
                termination,
                first: first_n,
                next_to_last: ntl_n,
            };
            match schedule_dates(p) {
                Err(e) => Err(e),
                Ok((dates, reg)) => Ok(
                    ScheduleModel {
                        eval_date: eval,
                        dates,
                        calendar,
                        convention,
                        termination_date_convention: termination_convention,
                        tenor: if rule_n == DateGenerationRule::Zero {
                            Period { length: 0, unit: TimeUnit::Years }
                        } else {
                            tenor
                        },
                        rule: rule_n,
                        end_of_month: eom_n,
                        is_regular: reg,
                        first_date: first_n,
                        next_to_last_date: ntl_n,
                    },
                ),
            }
        },
    }
}

/// The first index at or after `i` whose date is not before `x`; the length of `dates` when
/// there is none.
pub open spec fn first_not_before(dates: Seq<int>, x: int, i: int) -> int
    decreases dates.len() - i,
{
    if i >= dates.len() || i < 0 {
        dates.len() as int
    } else if dates[i] >= x {
        i
    } else {
        first_not_before(dates, x, i + 1)
    }
}

/// How many of the first `i` dates remain once the trailing dates later than `x` are dropped.
pub open spec fn kept_through(dates: Seq<int>, x: int, i: int) -> int
    decreases i,
{
    if i <= 0 {
        0
    } else if dates[i - 1] <= x {
        i
    } else {
        kept_through(dates, x, i - 1)
    }
}

/// The schedule without its dates before `t`; `t` becomes the first date (starting an
/// irregular period, with the termination convention then unadjusted) when it is not one.
pub open spec fn after_spec(m: ScheduleModel, t: int) -> ScheduleModel {
    if t > m.dates[0] {
        let k = first_not_before(m.dates, t, 0);
        let d1 = m.dates.subrange(k, m.dates.len() as int);
        let r1 = m.is_regular.subrange(k, m.is_regular.len() as int);
        let missing = t != d1[0];
        ScheduleModel {
            dates: if missing {
                seq![t] + d1
            } else {
                d1
            },
            is_regular: if missing {
                seq![false] + r1
            } else {
                r1
            },
            termination_date_convention: if missing {
                BusinessDayConvention::Unadjusted
            } else {
                m.termination_date_convention
            },
            next_to_last_date: if m.next_to_last_date <= t {
                null_serial()
            } else {
                m.next_to_last_date
            },
            first_date: if m.first_date <= t {
                null_serial()
            } else {
                m.first_date
            },
            ..m
        }
    } else {
        m
    }
}

/// The schedule without its dates after `t`; `t` becomes the last date (ending an irregular
/// period, with the termination convention then unadjusted) when it is not one.
pub open spec fn until_spec(m: ScheduleModel, t: int) -> ScheduleModel {
    let n = m.dates.len() as int;
    if t < m.dates[n - 1] {
        let c = kept_through(m.dates, t, n);
        let d1 = m.dates.take(c);
        let r1 = m.is_regular.take(c - 1);
        let missing = t != d1[c - 1];
        ScheduleModel {
            dates: if missing {
                d1.push(t)
            } else {
                d1
            },
            is_regular: if missing {
                r1.push(false)
            } else {
                r1
            },
            termination_date_convention: if missing {
                BusinessDayConvention::Unadjusted
            } else {
                m.termination_date_convention
            },
            next_to_last_date: if m.next_to_last_date >= t {
                null_serial()
            } else {
                m.next_to_last_date
            },
            first_date: if m.first_date >= t {
                null_serial()
            } else {
                m.first_date
            },
            ..m
        }
    } else {
        m
    }
}

/// The first index at or after `i` whose date is not before `x` is one: every date between
/// `i` and it comes before `x`.
pub proof fn lemma_first_not_before(dates: Seq<int>, x: int, i: int)
    requires
        0 <= i <= dates.len(),
    ensures
        i <= first_not_before(dates, x, i) <= dates.len(),
        first_not_before(dates, x, i) < dates.len() ==> dates[first_not_before(dates, x, i)] >= x,
        forall|j: int| i <= j < first_not_before(dates, x, i) ==> dates[j] < x,
    decreases dates.len() - i,
{
    if i < dates.len() && dates[i] < x {
        lemma_first_not_before(dates, x, i + 1);
    }
}

/// The dates kept among the first `i` ones end with one not after `x`, and every dropped one
/// is after `x`.
pub proof fn lemma_kept_through(dates: Seq<int>, x: int, i: int)
    requires
        0 <= i <= dates.len(),
    ensures
        0 <= kept_through(dates, x, i) <= i,
        kept_through(dates, x, i) > 0 ==> dates[kept_through(dates, x, i) - 1] <= x,
        forall|j: int| kept_through(dates, x, i) <= j < i ==> dates[j] > x,
    decreases i,
{
    if i > 0 && dates[i - 1] > x {
        lemma_kept_through(dates, x, i - 1);
    }
}

/// The dates are in increasing order.
pub open spec fn increasing(dates: Seq<int>) -> bool {
    forall|i: int, j: int| 0 <= i < j < dates.len() ==> dates[i] < dates[j]
}

/// Truncating a schedule at a date strictly inside it gives a schedule that starts at that
/// date, with two dates at least and a regularity flag per period; when the dates were
/// increasing, they remain so and none of them comes before the truncation date.
pub proof fn lemma_after_truncation(m: ScheduleModel, t: int)
    requires
        m.dates.len() >= 2,
        m.is_regular.len() + 1 == m.dates.len(),
        m.dates[0] < t < m.dates[m.dates.len() - 1],
    ensures
        after_spec(m, t).dates[0] == t,
        after_spec(m, t).dates.len() >= 2,
        after_spec(m, t).is_regular.len() + 1 == after_spec(m, t).dates.len(),
        increasing(m.dates) ==> increasing(after_spec(m, t).dates) && forall|i: int|
            0 <= i < after_spec(m, t).dates.len() ==> after_spec(m, t).dates[i] >= t,
{
    let n = m.dates.len() as int;
    lemma_first_not_before(m.dates, t, 0);
    let k = first_not_before(m.dates, t, 0);
    assert(k < n) by {
        if k >= n {
            assert(m.dates[n - 1] < t);
        }
    }
    let r = after_spec(m, t);
    if increasing(m.dates) {
        assert forall|i: int| 0 <= i < r.dates.len() implies r.dates[i] >= t by {
            if t != m.dates[k] && i > 0 {
                assert(r.dates[i] == m.dates[k + i - 1]);
            } else if t == m.dates[k] {
                assert(r.dates[i] == m.dates[k + i]);
            }
        }
        assert forall|i: int, j: int| 0 <= i < j < r.dates.len() implies r.dates[i] < r.dates[j] by {
            if t != m.dates[k] {
                assert(r.dates[j] == m.dates[k + j - 1]);
                if i > 0 {
                    assert(r.dates[i] == m.dates[k + i - 1]);
                }
            } else {
                assert(r.dates[j] == m.dates[k + j]);
                assert(r.dates[i] == m.dates[k + i]);
            }
        }
    }
}

/// Truncating a schedule at a date strictly inside it gives a schedule that ends at that
/// date, with two dates at least and a regularity flag per period; when the dates were
/// increasing, they remain so and none of them comes after the truncation date.
pub proof fn lemma_until_truncation(m: ScheduleModel, t: int)
    requires
        m.dates.len() >= 2,
        m.is_regular.len() + 1 == m.dates.len(),
        m.dates[0] < t < m.dates[m.dates.len() - 1],
    ensures
        until_spec(m, t).dates.last() == t,
        until_spec(m, t).dates.len() >= 2,
        until_spec(m, t).is_regular.len() + 1 == until_spec(m, t).dates.len(),
        increasing(m.dates) ==> increasing(until_spec(m, t).dates) && forall|i: int|
            0 <= i < until_spec(m, t).dates.len() ==> until_spec(m, t).dates[i] <= t,
{
    let n = m.dates.len() as int;
    lemma_kept_through(m.dates, t, n);
    let c = kept_through(m.dates, t, n);
    assert(c >= 1) by {
        if c == 0 {
            assert(m.dates[0] > t);
        }
    }
    let r = until_spec(m, t);
    if increasing(m.dates) {
        assert forall|i: int| 0 <= i < r.dates.len() implies r.dates[i] <= t by {
            if i < c {
                assert(r.dates[i] == m.dates[i]);
                if i < c - 1 {
                    assert(m.dates[i] < m.dates[c - 1]);
                }
            }
        }
        assert forall|i: int, j: int| 0 <= i < j < r.dates.len() implies r.dates[i] < r.dates[j] by {
            assert(r.dates[i] == m.dates[i]);
            if j < c {
                assert(r.dates[j] == m.dates[j]);
            } else {
                assert(m.dates[i] <= m.dates[c - 1]);
            }
        }
    }
}

/// The lookup index of a schedule separates its dates: the dates before it come before the
/// reference date, and the date at it, if any, does not.
pub proof fn lemma_lookup_index(m: ScheduleModel, x: int)
    ensures
        0 <= first_not_before(m.dates, x, 0) <= m.dates.len(),
        first_not_before(m.dates, x, 0) < m.dates.len() ==> m.dates[first_not_before(m.dates, x, 0)] >= x,
        forall|j: int| 0 <= j < first_not_before(m.dates, x, 0) ==> m.dates[j] < x,
{
    lemma_first_not_before(m.dates, x, 0);
}

} // verus!
