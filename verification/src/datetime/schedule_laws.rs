//! The order of the dates of a schedule.

use vstd::prelude::*;

use crate::datetime::businessdayconvention::BusinessDayConvention;
use crate::datetime::date::{
    advanced_serial, can_advance, is_valid_serial, is_valid_ymd, lemma_day_number_order,
    lemma_serial_has_date, lemma_serial_roundtrip, month_days, is_leap_year, serial_of,
    ymd_of_serial, year_of_serial, month_of_serial, day_of_serial,
};
use crate::datetime::dategenerationrule::DateGenerationRule;
use crate::datetime::schedule_rules::{
    adjusted_dates, adjusted_middle, apart_after_adjustment, backward_finish, backward_start,
    backward_steps, business_adjusted, forward_finish, forward_head, forward_start,
    forward_steps, generated, increasing, is_imm_twentieth_rule, is_twentieth_rule,
    next_twentieth_spec, null_advanced, null_calendar, null_serial, previous_twentieth_spec,
    shifted,
    schedule_dates, schedule_outcome, third_wednesday_dates, third_wednesday_of, trimmed,
    validated_inputs,
    without_early_date, without_late_date, GenParams, GenState,
};
use crate::datetime::calendar::{
    lemma_adjust_business_day, lemma_following_is_first_business_day,
    lemma_preceding_is_last_business_day, Calendar,
};
use crate::datetime::imm::{is_imm_date_spec, lemma_third_wednesday};
use crate::datetime::period::Period;
use crate::datetime::timeunit::TimeUnit;

verus! {

/// In the calendar without holidays, moving `n` business days moves `n` days.
proof fn lemma_null_business_days(s: int, n: int)
    ensures
        null_calendar().advance_business_days(s, n) matches Some(x) ==> x == s + n && (n != 0
            ==> is_valid_serial(x)),
    decreases (if n >= 0 {
        n
    } else {
        -n
    }),
{
    if n > 0 {
        if is_valid_serial(s + 1) {
            assert(null_calendar().following_from(s + 1) == Some(s + 1));
        }
        lemma_null_business_days(s + 1, n - 1);
    } else if n < 0 {
        if is_valid_serial(s - 1) {
            assert(null_calendar().preceding_from(s - 1) == Some(s - 1));
        }
        lemma_null_business_days(s - 1, n + 1);
    }
}

/// Moving a date by months or years with nothing to adjust: the date moved, which is a valid
/// one, and the date itself when moved by nothing.
proof fn lemma_moved_by_months(s: int, n: int, unit: TimeUnit)
    requires
        is_valid_serial(s),
        unit == TimeUnit::Months || unit == TimeUnit::Years,
        can_advance(s, n, unit),
    ensures
        is_valid_serial(advanced_serial(s, n, unit)),
        n == 0 ==> advanced_serial(s, n, unit) == s,
        day_of_serial(s) <= 28 ==> day_of_serial(advanced_serial(s, n, unit)) == day_of_serial(s),
{
    lemma_serial_has_date(s);
    let t = ymd_of_serial(s);
    if unit == TimeUnit::Months {
        let a = t.1 - 1 + n;
        vstd::arithmetic::div_mod::lemma_fundamental_div_mod(a, 12);
        let y = t.0 + a / 12;
        let m = a % 12 + 1;
        let len = month_days(m, is_leap_year(y));
        let d = if t.2 > len {
            len
        } else {
            t.2
        };
        lemma_serial_roundtrip(y, m, d);
    } else {
        let y = t.0 + n;
        let d = if t.2 == 29 && t.1 == 2 && !is_leap_year(y) {
            28
        } else {
            t.2
        };
        lemma_serial_roundtrip(y, t.1, d);
    }
}

/// The value of moving a date by `n` units in the calendar without holidays, with nothing to
/// adjust: `n` days or weeks later, or the date moved by months or years; a valid date.
proof fn lemma_null_advanced_value(s: int, n: int, unit: TimeUnit)
    requires
        is_valid_serial(s),
        null_advanced(s, n, unit, BusinessDayConvention::Unadjusted, false) is Some,
    ensures
        ({
            let x = null_advanced(s, n, unit, BusinessDayConvention::Unadjusted, false).unwrap();
            &&& is_valid_serial(x)
            &&& unit == TimeUnit::Days ==> x == s + n
            &&& unit == TimeUnit::Weeks ==> x == s + 7 * n
            &&& (unit == TimeUnit::Months || unit == TimeUnit::Years) ==> x == advanced_serial(
                s,
                n,
                unit,
            ) && can_advance(s, n, unit)
        }),
{
    if unit == TimeUnit::Days {
        lemma_null_business_days(s, n);
    }
    if (unit == TimeUnit::Months || unit == TimeUnit::Years) && n == 0 {
        lemma_serial_has_date(s);
        assert(can_advance(s, 0, unit)) by {
            let t = ymd_of_serial(s);
            vstd::arithmetic::div_mod::lemma_fundamental_div_mod(t.1 - 1, 12);
        }
        lemma_moved_by_months(s, 0, unit);
    }
}

/// In the calendar without holidays and with nothing to adjust, moving a date by more units
/// gives a later date.
pub proof fn lemma_null_advanced_order(s: int, n1: int, n2: int, unit: TimeUnit)
    requires
        is_valid_serial(s),
        n1 < n2,
        null_advanced(s, n1, unit, BusinessDayConvention::Unadjusted, false) is Some,
        null_advanced(s, n2, unit, BusinessDayConvention::Unadjusted, false) is Some,
    ensures
        null_advanced(s, n1, unit, BusinessDayConvention::Unadjusted, false).unwrap()
            < null_advanced(s, n2, unit, BusinessDayConvention::Unadjusted, false).unwrap(),
{
    lemma_null_advanced_value(s, n1, unit);
    lemma_null_advanced_value(s, n2, unit);
    if unit == TimeUnit::Months || unit == TimeUnit::Years {
        lemma_serial_has_date(s);
        let t = ymd_of_serial(s);
        if unit == TimeUnit::Months {
            let a1 = t.1 - 1 + n1;
            let a2 = t.1 - 1 + n2;
            vstd::arithmetic::div_mod::lemma_fundamental_div_mod(a1, 12);
            vstd::arithmetic::div_mod::lemma_fundamental_div_mod(a2, 12);
            let y1 = t.0 + a1 / 12;
            let m1 = a1 % 12 + 1;
            let y2 = t.0 + a2 / 12;
            let m2 = a2 % 12 + 1;
            let l1 = month_days(m1, is_leap_year(y1));
            let l2 = month_days(m2, is_leap_year(y2));
            let d1 = if t.2 > l1 {
                l1
            } else {
                t.2
            };
            let d2 = if t.2 > l2 {
                l2
            } else {
                t.2
            };
            assert(y1 < y2 || (y1 == y2 && m1 < m2));
            lemma_day_number_order(y1, m1, d1, y2, m2, d2);
        } else {
            let y1 = t.0 + n1;
            let y2 = t.0 + n2;
            let d1 = if t.2 == 29 && t.1 == 2 && !is_leap_year(y1) {
                28
            } else {
                t.2
            };
            let d2 = if t.2 == 29 && t.1 == 2 && !is_leap_year(y2) {
                28
            } else {
                t.2
            };
            lemma_day_number_order(y1, t.1, d1, y2, t.1, d2);
        }
    }
}

/// Every date is a valid one.
pub open spec fn valid_dates(dates: Seq<int>) -> bool {
    forall|i: int| 0 <= i < dates.len() ==> is_valid_serial(#[trigger] dates[i])
}

/// Generation parameters with nothing to adjust: unadjusted conventions, no end-of-month
/// rule, valid dates, the effective date before the termination date, a first date after the
/// effective date and not after the termination date, a next to last date not before the
/// effective date and before the termination date, and the first date not after the next to
/// last date when both are given.
pub open spec fn plain_params(p: GenParams) -> bool {
    &&& p.convention == BusinessDayConvention::Unadjusted
    &&& p.termination_convention == BusinessDayConvention::Unadjusted
    &&& !p.end_of_month
    &&& is_valid_serial(p.effective)
    &&& is_valid_serial(p.termination)
    &&& is_valid_serial(p.first)
    &&& is_valid_serial(p.next_to_last)
    &&& p.effective < p.termination
    &&& p.first != null_serial() ==> p.effective < p.first <= p.termination
    &&& p.next_to_last != null_serial() ==> p.effective <= p.next_to_last < p.termination
    &&& p.first != null_serial() && p.next_to_last != null_serial() ==> p.first <= p.next_to_last
}

/// The date that stops the forward steps: the next to last date when there is one, else the
/// termination date.
pub open spec fn forward_exit(p: GenParams) -> int {
    if p.next_to_last != null_serial() {
        p.next_to_last
    } else {
        p.termination
    }
}

/// The date that stops the backward steps: the first date when there is one, else the
/// effective date.
pub open spec fn backward_exit(p: GenParams) -> int {
    if p.first != null_serial() {
        p.first
    } else {
        p.effective
    }
}

/// Dates in increasing order stay so with a later date appended.
proof fn lemma_push_increasing(dates: Seq<int>, t: int)
    requires
        dates.len() >= 1,
        increasing(dates),
        dates.last() < t,
    ensures
        increasing(dates.push(t)),
{
    let r = dates.push(t);
    assert forall|i: int, j: int| 0 <= i < j < r.len() implies r[i] < r[j] by {
        if j == r.len() - 1 && i < j {
            assert(r[i] == dates[i]);
            if i < dates.len() - 1 {
                assert(dates[i] < dates[dates.len() - 1]);
            }
        } else {
            assert(r[i] == dates[i] && r[j] == dates[j]);
        }
    }
}

/// Dates in increasing order stay so with an earlier date put in front.
proof fn lemma_prepend_increasing(dates: Seq<int>, t: int)
    requires
        dates.len() >= 1,
        increasing(dates),
        t < dates[0],
    ensures
        increasing(seq![t] + dates),
{
    let r = seq![t] + dates;
    assert forall|i: int, j: int| 0 <= i < j < r.len() implies r[i] < r[j] by {
        assert(r[j] == dates[j - 1]);
        if i > 0 {
            assert(r[i] == dates[i - 1]);
        } else if j - 1 > 0 {
            assert(dates[0] < dates[j - 1]);
        }
    }
}

/// What the forward steps keep: at least one date, in increasing order, all valid, starting
/// at the effective date, one regularity flag per period, and the last date not after the
/// exit date.
pub open spec fn forward_state_ok(p: GenParams, st: GenState) -> bool {
    &&& st.0.len() >= 1
    &&& increasing(st.0)
    &&& valid_dates(st.0)
    &&& st.1.len() + 1 == st.0.len()
    &&& st.0[0] == p.effective
    &&& st.0.last() <= forward_exit(p)
}

proof fn lemma_forward_steps(p: GenParams, seed: int, k: int, st: GenState)
    requires
        plain_params(p),
        p.tenor.length > 0,
        is_valid_serial(seed),
        1 <= k,
        forward_state_ok(p, st),
        null_advanced(
            seed,
            (k - 1) * p.tenor.length,
            p.tenor.unit,
            BusinessDayConvention::Unadjusted,
            false,
        ) is Some,
        st.0.last() <= null_advanced(
            seed,
            (k - 1) * p.tenor.length,
            p.tenor.unit,
            BusinessDayConvention::Unadjusted,
            false,
        ).unwrap(),
        forward_steps(p, seed, k, st) is Ok,
    ensures
        forward_state_ok(p, forward_steps(p, seed, k, st).unwrap()),
    decreases i32::MAX - k,
{
    let (dates, reg) = st;
    let len = p.tenor.length as int;
    let prev = null_advanced(seed, (k - 1) * len, p.tenor.unit, BusinessDayConvention::Unadjusted, false).unwrap();
    let t = null_advanced(seed, k * len, p.tenor.unit, BusinessDayConvention::Unadjusted, false).unwrap();
    assert((k - 1) * len < k * len) by (nonlinear_arith)
        requires
            len > 0,
    ;
    lemma_null_advanced_value(seed, k * len, p.tenor.unit);
    lemma_null_advanced_order(seed, (k - 1) * len, k * len, p.tenor.unit);
    let exit = forward_exit(p);
    if t > exit {
        if p.next_to_last != null_serial() {
            if dates.last() != p.next_to_last {
                lemma_push_increasing(dates, p.next_to_last);
            }
        }
    } else {
        lemma_push_increasing(dates, t);
        let next = (dates.push(t), reg.push(true));
        assert(apart_after_adjustment(p.calendar, dates.last(), t, p.convention) == Some(true));
        assert((k + 1 - 1) * len == k * len);
        lemma_forward_steps(p, seed, k + 1, next);
    }
}

/// What the backward steps keep: at least one date, in increasing order, all valid, ending at
/// the termination date, one regularity flag per period, and the first date not before the
/// exit date.
pub open spec fn backward_state_ok(p: GenParams, st: GenState) -> bool {
    &&& st.0.len() >= 1
    &&& increasing(st.0)
    &&& valid_dates(st.0)
    &&& st.1.len() + 1 == st.0.len()
    &&& st.0.last() == p.termination
    &&& st.0[0] >= backward_exit(p)
}

proof fn lemma_backward_steps(p: GenParams, seed: int, k: int, st: GenState)
    requires
        plain_params(p),
        p.tenor.length > 0,
        is_valid_serial(seed),
        1 <= k,
        backward_state_ok(p, st),
        null_advanced(
            seed,
            -((k - 1) * p.tenor.length),
            p.tenor.unit,
            BusinessDayConvention::Unadjusted,
            false,
        ) is Some,
        st.0[0] >= null_advanced(
            seed,
            -((k - 1) * p.tenor.length),
            p.tenor.unit,
            BusinessDayConvention::Unadjusted,
            false,
        ).unwrap(),
        backward_steps(p, seed, k, st) is Ok,
    ensures
        backward_state_ok(p, backward_steps(p, seed, k, st).unwrap()),
    decreases i32::MAX - k,
{
    let (dates, reg) = st;
    let len = p.tenor.length as int;
    let t = null_advanced(seed, -(k * len), p.tenor.unit, BusinessDayConvention::Unadjusted, false).unwrap();
    assert(-(k * len) < -((k - 1) * len)) by (nonlinear_arith)
        requires
            len > 0,
    ;
    lemma_null_advanced_value(seed, -(k * len), p.tenor.unit);
    lemma_null_advanced_order(seed, -(k * len), -((k - 1) * len), p.tenor.unit);
    let exit = backward_exit(p);
    if t < exit {
        if p.first != null_serial() {
            if dates[0] != p.first {
                lemma_prepend_increasing(dates, p.first);
                assert((seq![p.first] + dates).last() == dates.last());
            }
        }
    } else {
        lemma_prepend_increasing(dates, t);
        let next = (seq![t] + dates, seq![true] + reg);
        assert(next.0.last() == dates.last());
        assert(apart_after_adjustment(p.calendar, dates[0], t, p.convention) == Some(true));
        assert((k + 1 - 1) * len == k * len);
        assert(valid_dates(next.0)) by {
            assert forall|i: int| 0 <= i < next.0.len() implies is_valid_serial(#[trigger] next.0[i]) by {
                if i > 0 {
                    assert(next.0[i] == dates[i - 1]);
                }
            }
        }
        lemma_backward_steps(p, seed, k + 1, next);
    }
}

/// The rules whose dates are laid out from the effective and termination dates alone.
pub open spec fn is_plain_rule(p: GenParams) -> bool {
    ||| p.rule == DateGenerationRule::Zero
    ||| (p.rule == DateGenerationRule::Forward || p.rule == DateGenerationRule::Backward)
        && p.tenor.length > 0
}

/// The dates a plain rule generates: at least two, increasing and valid, from the effective
/// date to the termination date, with one regularity flag per period.
proof fn lemma_generated(p: GenParams)
    requires
        plain_params(p),
        is_plain_rule(p),
        generated(p) is Ok,
    ensures
        ({
            let (dates, reg) = generated(p).unwrap().0;
            &&& dates.len() >= 2
            &&& increasing(dates)
            &&& valid_dates(dates)
            &&& reg.len() + 1 == dates.len()
            &&& dates[0] == p.effective
            &&& dates.last() == p.termination
        }),
{
    let len = p.tenor.length as int;
    if p.rule == DateGenerationRule::Zero {
    } else if p.rule == DateGenerationRule::Backward {
        let (st, seed) = backward_start(p).unwrap();
        assert(null_advanced(seed, 0, p.tenor.unit, BusinessDayConvention::Unadjusted, false)
            == Some(seed));
        assert(-((1 - 1) * len) == 0);
        if p.next_to_last != null_serial() {
            lemma_push_increasing(seq![p.next_to_last], p.termination);
            assert(seq![p.next_to_last].push(p.termination) =~= seq![p.next_to_last, p.termination]);
        }
        lemma_backward_steps(p, seed, 1, st);
        let st2 = backward_steps(p, seed, 1, st).unwrap();
        if st2.0[0] != p.effective {
            lemma_prepend_increasing(st2.0, p.effective);
            assert((seq![p.effective] + st2.0).last() == st2.0.last());
        }
    } else {
        let head = forward_head(p).unwrap();
        assert(head == (seq![p.effective], Seq::<bool>::empty()));
        let (st, seed) = forward_start(p).unwrap();
        assert(null_advanced(seed, 0, p.tenor.unit, BusinessDayConvention::Unadjusted, false)
            == Some(seed));
        assert((1 - 1) * len == 0);
        if p.first != null_serial() {
            lemma_push_increasing(seq![p.effective], p.first);
        }
        lemma_forward_steps(p, seed, 1, st);
        let st2 = forward_steps(p, seed, 1, st).unwrap();
        if st2.0.last() != p.termination {
            lemma_push_increasing(st2.0, p.termination);
        }
    }
}

/// The schedule dates of a plain rule: at least two, increasing, from the effective date to
/// the termination date, with one regularity flag per period.
pub proof fn lemma_plain_schedule_dates(p: GenParams)
    requires
        plain_params(p),
        is_plain_rule(p),
        schedule_dates(p) is Ok,
    ensures
        ({
            let (dates, reg) = schedule_dates(p).unwrap();
            &&& dates.len() >= 2
            &&& increasing(dates)
            &&& reg.len() + 1 == dates.len()
            &&& dates[0] == p.effective
            &&& dates.last() == p.termination
        }),
{
    lemma_generated(p);
    let ((dates, reg), seed) = generated(p).unwrap();
    let n = dates.len();
    assert(third_wednesday_dates(p.rule, dates) == dates);
    assert(adjusted_middle(p.calendar, p.convention, dates) == Some(dates)) by {
        assert forall|i: int| 1 <= i < n - 1 implies (#[trigger] p.calendar.adjusted(
            dates[i],
            p.convention,
        )) is Some by {
            assert(is_valid_serial(dates[i]));
        }
        let sq = Seq::new(
            n,
            |i: int|
                if 1 <= i < n - 1 {
                    p.calendar.adjusted(dates[i], p.convention).unwrap()
                } else {
                    dates[i]
                },
        );
        assert forall|i: int| 0 <= i < n implies sq[i] == dates[i] by {
            if 1 <= i < n - 1 {
                assert(is_valid_serial(dates[i]));
            }
        }
        assert(sq =~= dates);
    }
    assert(is_valid_serial(dates[0]));
    assert(dates.update(0, dates[0]) =~= dates);
    assert(business_adjusted(p, dates) == Some(dates));
    assert(adjusted_dates(p, seed, dates) == Ok::<Seq<int>, crate::datetime::schedule_rules::ScheduleError>(dates));
    assert(dates[n - 2] < dates[n - 1]);
    assert(without_late_date((dates, reg)) == (dates, reg));
    assert(dates[0] < dates[1]);
    assert(trimmed((dates, reg)) == Ok::<GenState, crate::datetime::schedule_rules::ScheduleError>((dates, reg)));
}

/// A forward or backward schedule with unadjusted conventions and no end-of-month rule has
/// its dates in increasing order (so without repeats), from the effective date (when one is
/// given) to the termination date, as long as a given first date is not after a given next
/// to last date.
pub proof fn lemma_plain_schedule_order(
    eval: int,
    effective: int,
    termination: int,
    tenor: Period,
    calendar: Calendar,
    rule: DateGenerationRule,
    first: int,
    next_to_last: int,
)
    requires
        rule == DateGenerationRule::Forward || rule == DateGenerationRule::Backward,
        is_valid_serial(effective),
        is_valid_serial(termination),
        is_valid_serial(first),
        is_valid_serial(next_to_last),
        first == null_serial() || first == effective || next_to_last == null_serial()
            || next_to_last == termination || first <= next_to_last,
        schedule_outcome(
            eval,
            effective,
            termination,
            tenor,
            calendar,
            BusinessDayConvention::Unadjusted,
            BusinessDayConvention::Unadjusted,
            rule,
            false,
            first,
            next_to_last,
        ) is Ok,
    ensures
        ({
            let m = schedule_outcome(
                eval,
                effective,
                termination,
                tenor,
                calendar,
                BusinessDayConvention::Unadjusted,
                BusinessDayConvention::Unadjusted,
                rule,
                false,
                first,
                next_to_last,
            ).unwrap();
            &&& increasing(m.dates)
            &&& m.dates.last() == termination
            &&& effective != null_serial() ==> m.dates[0] == effective
        }),
{
    let (eff, rule_n) = validated_inputs(
        eval,
        effective,
        termination,
        tenor,
        rule,
        first,
        next_to_last,
    ).unwrap();
    let first_n = if first == effective {
        null_serial()
    } else {
        first
    };
    let ntl_n = if next_to_last == termination {
        null_serial()
    } else {
        next_to_last
    };
    let p = GenParams {
        calendar,
        convention: BusinessDayConvention::Unadjusted,
        termination_convention: BusinessDayConvention::Unadjusted,
        tenor,
        rule: rule_n,
        end_of_month: false,
        effective: eff,
        termination,
        first: first_n,
        next_to_last: ntl_n,
    };
    if effective == null_serial() && first == null_serial() && rule == DateGenerationRule::Backward
        && next_to_last != null_serial() {
        let y = crate::datetime::schedule_rules::quotient_toward_zero(next_to_last - eval, 366) + 1;
        lemma_moved_by_months(next_to_last, -y, TimeUnit::Years);
    }
    assert(plain_params(p));
    assert(is_plain_rule(p));
    lemma_plain_schedule_dates(p);
}

/// The conventions whose adjustment keeps the order of dates without looking at months:
/// no adjustment, the following business day, the preceding business day.
pub open spec fn is_order_keeping(c: BusinessDayConvention) -> bool {
    c == BusinessDayConvention::Unadjusted || c == BusinessDayConvention::Following || c
        == BusinessDayConvention::Preceding
}

/// Adjusting by one of these conventions keeps the order of dates, moves a date to a valid
/// one, never earlier with the following business day and never later with the preceding
/// business day.
pub proof fn lemma_adjusted_order(cal: Calendar, s1: int, s2: int, c: BusinessDayConvention)
    requires
        is_order_keeping(c),
        is_valid_serial(s1),
        is_valid_serial(s2),
        s1 <= s2,
        cal.adjusted(s1, c) is Some,
        cal.adjusted(s2, c) is Some,
    ensures
        cal.adjusted(s1, c).unwrap() <= cal.adjusted(s2, c).unwrap(),
        is_valid_serial(cal.adjusted(s1, c).unwrap()),
        c != BusinessDayConvention::Preceding ==> s1 <= cal.adjusted(s1, c).unwrap(),
        c != BusinessDayConvention::Following ==> cal.adjusted(s1, c).unwrap() <= s1,
{
    lemma_following_is_first_business_day(cal, s1);
    lemma_following_is_first_business_day(cal, s2);
    lemma_preceding_is_last_business_day(cal, s1);
    lemma_preceding_is_last_business_day(cal, s2);
    if c == BusinessDayConvention::Following {
        let f1 = cal.following_from(s1).unwrap();
        let f2 = cal.following_from(s2).unwrap();
        if f2 < f1 {
            assert(!cal.is_business_day_spec(f2));
        }
    } else if c == BusinessDayConvention::Preceding {
        let p1 = cal.preceding_from(s1).unwrap();
        let p2 = cal.preceding_from(s2).unwrap();
        if p2 < p1 {
            assert(!cal.is_business_day_spec(p1));
        }
    }
}

/// Days between a date and the following business day share that following business day.
proof fn lemma_following_stretch(cal: Calendar, s: int, t: int)
    requires
        is_valid_serial(s),
        is_valid_serial(t),
        cal.following_from(s) is Some,
        s <= t < cal.following_from(s).unwrap(),
    ensures
        cal.following_from(t) == cal.following_from(s),
{
    lemma_following_is_first_business_day(cal, s);
    lemma_following_is_first_business_day(cal, t);
    let f = cal.following_from(s).unwrap();
    assert(!cal.is_business_day_spec(t));
    if cal.following_from(t) is Some {
        let g = cal.following_from(t).unwrap();
        if g < f {
            assert(!cal.is_business_day_spec(g));
        }
        if f < g {
            assert(!cal.is_business_day_spec(f));
        }
    } else {
        // the search from `t` reaches `f`
        lemma_following_reaches(cal, t, f);
    }
}

/// The search for the following business day from `t` finds a business day at or after `t`.
proof fn lemma_following_reaches(cal: Calendar, t: int, b: int)
    requires
        is_valid_serial(t),
        is_valid_serial(b),
        t <= b,
        cal.is_business_day_spec(b),
    ensures
        cal.following_from(t) is Some,
    decreases b - t,
{
    if !cal.is_business_day_spec(t) {
        lemma_following_reaches(cal, t + 1, b);
    }
}

/// In the calendar without holidays, every convention leaves dates where they are.
proof fn lemma_null_advanced_any(s: int, n: int, unit: TimeUnit, c: BusinessDayConvention)
    requires
        is_valid_serial(s),
    ensures
        null_advanced(s, n, unit, c, false) == null_advanced(
            s,
            n,
            unit,
            BusinessDayConvention::Unadjusted,
            false,
        ),
{
    lemma_adjust_business_day(null_calendar(), s, c);
    if unit == TimeUnit::Weeks && is_valid_serial(s + 7 * n) {
        lemma_adjust_business_day(null_calendar(), s + 7 * n, c);
    }
    if (unit == TimeUnit::Months || unit == TimeUnit::Years) && can_advance(s, n, unit) {
        lemma_moved_by_months(s, n, unit);
        lemma_adjust_business_day(null_calendar(), advanced_serial(s, n, unit), c);
    }
}

/// The date `s` adjusted by `c` in the calendar.
#[verifier::opaque]
pub open spec fn adj(cal: Calendar, c: BusinessDayConvention, s: int) -> Option<int> {
    cal.adjusted(s, c)
}

/// Consecutive dates from index `lo` on, up to index `hi`, stay apart once adjusted by `c`.
pub open spec fn gated(cal: Calendar, c: BusinessDayConvention, u: Seq<int>, lo: int, hi: int) -> bool {
    forall|i: int|
        #![trigger adj(cal, c, u[i]), adj(cal, c, u[i + 1])]
        lo <= i && i + 1 < hi ==> adj(cal, c, u[i]) != adj(cal, c, u[i + 1])
}

/// Generation parameters whose dates come out in order: a convention of
/// [is_order_keeping], any termination convention, no end-of-month rule, valid dates, the
/// effective date before the termination date, a first date after the effective date and
/// not after the termination date, a next to last date not before the effective date and
/// before the termination date, and the first date not after the next to last date when both
/// are given.
pub open spec fn ordered_params(p: GenParams) -> bool {
    &&& is_order_keeping(p.convention)
    &&& !p.end_of_month
    &&& is_valid_serial(p.effective)
    &&& is_valid_serial(p.termination)
    &&& is_valid_serial(p.first)
    &&& is_valid_serial(p.next_to_last)
    &&& p.effective < p.termination
    &&& p.first != null_serial() ==> p.effective < p.first <= p.termination
    &&& p.next_to_last != null_serial() ==> p.effective <= p.next_to_last < p.termination
    &&& p.first != null_serial() && p.next_to_last != null_serial() ==> p.first <= p.next_to_last
}

/// Appending a date that stays apart from the last one once adjusted keeps consecutive dates
/// apart.
proof fn lemma_push_gated(cal: Calendar, c: BusinessDayConvention, dates: Seq<int>, t: int, lo: int)
    requires
        dates.len() >= 1,
        lo >= 0,
        gated(cal, c, dates, lo, dates.len() as int),
        adj(cal, c, dates.last()) != adj(cal, c, t),
    ensures
        gated(cal, c, dates.push(t), lo, dates.len() as int + 1),
{
    let n = dates.len() as int;
    let d2 = dates.push(t);
    assert forall|i: int|
        #![trigger adj(cal, c, d2[i]), adj(cal, c, d2[i + 1])]
        lo <= i && i + 1 < d2.len() implies adj(cal, c, d2[i])
        != adj(cal, c, d2[i + 1]) by {
        assert(d2[i] == dates[i]);
        if i + 1 < n {
            assert(d2[i + 1] == dates[i + 1]);
        }
    }
}

/// Putting in front a date that stays apart from the first one once adjusted keeps
/// consecutive dates apart.
proof fn lemma_prepend_gated(cal: Calendar, c: BusinessDayConvention, dates: Seq<int>, t: int, hi: int)
    requires
        dates.len() >= 1,
        0 <= hi <= dates.len(),
        gated(cal, c, dates, 0, hi),
        adj(cal, c, t) != adj(cal, c, dates[0]),
    ensures
        gated(cal, c, seq![t] + dates, 0, hi + 1),
{
    let d2 = seq![t] + dates;
    assert forall|i: int|
        #![trigger adj(cal, c, d2[i]), adj(cal, c, d2[i + 1])]
        0 <= i && i + 1 < hi + 1 implies adj(cal, c, d2[i])
        != adj(cal, c, d2[i + 1]) by {
        assert(d2[i + 1] == dates[i]);
        if i > 0 {
            assert(d2[i] == dates[i - 1]);
            assert(adj(cal, c, dates[i - 1]) != adj(cal, c, dates[i - 1 + 1]));
        }
    }
}

#[verifier::rlimit(40)]
proof fn lemma_forward_steps_gated(p: GenParams, seed: int, k: int, st: GenState)
    requires
        ordered_params(p),
        p.tenor.length > 0,
        is_valid_serial(seed),
        1 <= k,
        forward_state_ok(p, st),
        gated(p.calendar, p.convention, st.0, 1, st.0.len() as int),
        null_advanced(
            seed,
            (k - 1) * p.tenor.length,
            p.tenor.unit,
            BusinessDayConvention::Unadjusted,
            false,
        ) is Some,
        st.0.last() <= null_advanced(
            seed,
            (k - 1) * p.tenor.length,
            p.tenor.unit,
            BusinessDayConvention::Unadjusted,
            false,
        ).unwrap(),
        forward_steps(p, seed, k, st) is Ok,
    ensures
        forward_state_ok(p, forward_steps(p, seed, k, st).unwrap()),
        gated(
            p.calendar,
            p.convention,
            forward_steps(p, seed, k, st).unwrap().0,
            1,
            forward_steps(p, seed, k, st).unwrap().0.len() as int,
        ),
    decreases i32::MAX - k,
{
    let (dates, reg) = st;
    let len = p.tenor.length as int;
    lemma_null_advanced_any(seed, k * len, p.tenor.unit, p.convention);
    let t = null_advanced(seed, k * len, p.tenor.unit, BusinessDayConvention::Unadjusted, false).unwrap();
    assert((k - 1) * len < k * len) by (nonlinear_arith)
        requires
            len > 0,
    ;
    lemma_null_advanced_value(seed, k * len, p.tenor.unit);
    lemma_null_advanced_order(seed, (k - 1) * len, k * len, p.tenor.unit);
    let exit = forward_exit(p);
    let n = dates.len() as int;
    if t > exit {
        if p.next_to_last != null_serial() {
            if p.calendar.adjusted(dates.last(), p.convention) != p.calendar.adjusted(
                p.next_to_last,
                p.convention,
            ) {
                lemma_push_increasing(dates, p.next_to_last);
                reveal(adj);
                lemma_push_gated(p.calendar, p.convention, dates, p.next_to_last, 1);
            }
        }
    } else {
        assert((k + 1 - 1) * len == k * len);
        if p.calendar.adjusted(dates.last(), p.convention) != p.calendar.adjusted(t, p.convention) {
            lemma_push_increasing(dates, t);
            let next = (dates.push(t), reg.push(true));
            reveal(adj);
            lemma_push_gated(p.calendar, p.convention, dates, t, 1);
            lemma_forward_steps_gated(p, seed, k + 1, next);
        } else {
            lemma_forward_steps_gated(p, seed, k + 1, st);
        }
    }
}

#[verifier::rlimit(40)]
proof fn lemma_backward_steps_gated(p: GenParams, seed: int, k: int, st: GenState)
    requires
        ordered_params(p),
        p.tenor.length > 0,
        is_valid_serial(seed),
        1 <= k,
        backward_state_ok(p, st),
        gated(p.calendar, p.convention, st.0, 0, st.0.len() - 1),
        null_advanced(
            seed,
            -((k - 1) * p.tenor.length),
            p.tenor.unit,
            BusinessDayConvention::Unadjusted,
            false,
        ) is Some,
        st.0[0] >= null_advanced(
            seed,
            -((k - 1) * p.tenor.length),
            p.tenor.unit,
            BusinessDayConvention::Unadjusted,
            false,
        ).unwrap(),
        backward_steps(p, seed, k, st) is Ok,
    ensures
        backward_state_ok(p, backward_steps(p, seed, k, st).unwrap()),
        gated(
            p.calendar,
            p.convention,
            backward_steps(p, seed, k, st).unwrap().0,
            0,
            backward_steps(p, seed, k, st).unwrap().0.len() - 1,
        ),
    decreases i32::MAX - k,
{
    let (dates, reg) = st;
    let len = p.tenor.length as int;
    let n = dates.len() as int;
    lemma_null_advanced_any(seed, -(k * len), p.tenor.unit, p.convention);
    let t = null_advanced(seed, -(k * len), p.tenor.unit, BusinessDayConvention::Unadjusted, false).unwrap();
    assert(-(k * len) < -((k - 1) * len)) by (nonlinear_arith)
        requires
            len > 0,
    ;
    lemma_null_advanced_value(seed, -(k * len), p.tenor.unit);
    lemma_null_advanced_order(seed, -(k * len), -((k - 1) * len), p.tenor.unit);
    let exit = backward_exit(p);
    if t < exit {
        if p.first != null_serial() {
            if p.calendar.adjusted(dates[0], p.convention) != p.calendar.adjusted(
                p.first,
                p.convention,
            ) {
                lemma_prepend_increasing(dates, p.first);
                assert((seq![p.first] + dates).last() == dates.last());
                reveal(adj);
                lemma_prepend_gated(p.calendar, p.convention, dates, p.first, n - 1);
            }
        }
    } else {
        assert((k + 1 - 1) * len == k * len);
        if p.calendar.adjusted(dates[0], p.convention) != p.calendar.adjusted(t, p.convention) {
            lemma_prepend_increasing(dates, t);
            let next = (seq![t] + dates, seq![true] + reg);
            assert(next.0.last() == dates.last());
            assert(valid_dates(next.0)) by {
                assert forall|i: int| 0 <= i < next.0.len() implies is_valid_serial(
                    #[trigger] next.0[i],
                ) by {
                    if i > 0 {
                        assert(next.0[i] == dates[i - 1]);
                    }
                }
            }
            reveal(adj);
            lemma_prepend_gated(p.calendar, p.convention, dates, t, n - 1);
            lemma_backward_steps_gated(p, seed, k + 1, next);
        } else {
            lemma_backward_steps_gated(p, seed, k + 1, st);
        }
    }
}

proof fn lemma_gated_weaken(
    cal: Calendar,
    c: BusinessDayConvention,
    u: Seq<int>,
    lo: int,
    hi: int,
    lo2: int,
    hi2: int,
)
    requires
        gated(cal, c, u, lo, hi),
        lo <= lo2,
        hi2 <= hi,
    ensures
        gated(cal, c, u, lo2, hi2),
{
    assert forall|i: int|
        #![trigger adj(cal, c, u[i]), adj(cal, c, u[i + 1])]
        lo2 <= i && i + 1 < hi2 implies adj(cal, c, u[i]) != adj(
        cal,
        c,
        u[i + 1],
    ) by {
        assert(lo <= i && i + 1 < hi);
    }
}

proof fn lemma_gated_push_any(cal: Calendar, c: BusinessDayConvention, u: Seq<int>, x: int, lo: int, hi: int)
    requires
        gated(cal, c, u, lo, hi),
        0 <= lo,
        hi <= u.len(),
    ensures
        gated(cal, c, u.push(x), lo, hi),
{
    let u2 = u.push(x);
    assert forall|i: int|
        #![trigger adj(cal, c, u2[i]), adj(cal, c, u2[i + 1])]
        lo <= i && i + 1 < hi implies adj(cal, c, u2[i]) != adj(
        cal,
        c,
        u2[i + 1],
    ) by {
        assert(u2[i] == u[i] && u2[i + 1] == u[i + 1]);
    }
}

/// The unadjusted dates that a plain rule generates under [ordered_params]: increasing and
/// valid, with one regularity flag per period, and consecutive ones from the second on
/// (but the last two) apart once adjusted.
#[verifier::rlimit(40)]
proof fn lemma_generated_gated(p: GenParams)
    requires
        ordered_params(p),
        is_plain_rule(p),
        generated(p) is Ok,
    ensures
        ({
            let (dates, reg) = generated(p).unwrap().0;
            &&& dates.len() >= 1
            &&& increasing(dates)
            &&& valid_dates(dates)
            &&& reg.len() + 1 == dates.len()
            &&& gated(p.calendar, p.convention, dates, 1, dates.len() - 1)
        }),
{
    let len = p.tenor.length as int;
    if p.rule == DateGenerationRule::Zero {
    } else if p.rule == DateGenerationRule::Backward {
        let (st, seed) = backward_start(p).unwrap();
        lemma_null_advanced_any(seed, 0, p.tenor.unit, p.convention);
        assert(null_advanced(seed, 0, p.tenor.unit, BusinessDayConvention::Unadjusted, false)
            == Some(seed));
        assert(-((1 - 1) * len) == 0);
        if p.next_to_last != null_serial() {
            lemma_null_advanced_any(p.termination, -len, p.tenor.unit, p.convention);
            lemma_push_increasing(seq![p.next_to_last], p.termination);
            assert(seq![p.next_to_last].push(p.termination) =~= seq![p.next_to_last, p.termination]);
        }
        lemma_backward_steps_gated(p, seed, 1, st);
        let st2 = backward_steps(p, seed, 1, st).unwrap();
        let n2 = st2.0.len() as int;
        if p.calendar.adjusted(st2.0[0], p.convention) != p.calendar.adjusted(
            p.effective,
            p.convention,
        ) {
            lemma_prepend_increasing(st2.0, p.effective);
            assert((seq![p.effective] + st2.0).last() == st2.0.last());
            reveal(adj);
            lemma_prepend_gated(p.calendar, p.convention, st2.0, p.effective, n2 - 1);
            lemma_gated_weaken(p.calendar, p.convention, seq![p.effective] + st2.0, 0, n2, 1, n2);
        } else {
            lemma_gated_weaken(p.calendar, p.convention, st2.0, 0, n2 - 1, 1, n2 - 1);
        }
    } else {
        let head = forward_head(p).unwrap();
        assert(head == (seq![p.effective], Seq::<bool>::empty()));
        let (st, seed) = forward_start(p).unwrap();
        lemma_null_advanced_any(seed, 0, p.tenor.unit, p.convention);
        assert(null_advanced(seed, 0, p.tenor.unit, BusinessDayConvention::Unadjusted, false)
            == Some(seed));
        assert((1 - 1) * len == 0);
        if p.first != null_serial() {
            lemma_null_advanced_any(p.effective, len, p.tenor.unit, p.convention);
            lemma_push_increasing(seq![p.effective], p.first);
        }
        lemma_forward_steps_gated(p, seed, 1, st);
        let st2 = forward_steps(p, seed, 1, st).unwrap();
        let n2 = st2.0.len() as int;
        if p.calendar.adjusted(st2.0.last(), p.termination_convention) != p.calendar.adjusted(
            p.termination,
            p.termination_convention,
        ) {
            assert(st2.0.last() != p.termination);
            lemma_push_increasing(st2.0, p.termination);
            lemma_gated_push_any(p.calendar, p.convention, st2.0, p.termination, 1, n2);
        } else {
            lemma_gated_weaken(p.calendar, p.convention, st2.0, 1, n2, 1, n2 - 1);
        }
    }
}

/// Dates that are increasing from the second to the last but one, with the first not after
/// any of those, and every one of those but the last but one before the last date, come out
/// of the final clean-up in increasing order.
#[verifier::rlimit(60)]
proof fn lemma_trimmed_increasing(d: Seq<int>, reg: Seq<bool>)
    requires
        d.len() >= 2,
        reg.len() + 1 == d.len(),
        forall|i: int, j: int| 1 <= i < j <= d.len() - 2 ==> d[i] < d[j],
        forall|j: int| 1 <= j <= d.len() - 2 ==> d[0] <= #[trigger] d[j],
        forall|i: int| 1 <= i <= d.len() - 3 ==> #[trigger] d[i] < d[d.len() - 1],
        trimmed((d, reg)) is Ok,
    ensures
        increasing(trimmed((d, reg)).unwrap().0),
{
    let n = d.len() as int;
    let l = without_late_date((d, reg));
    let ld = l.0;
    let m = ld.len() as int;
    // after the first step: increasing from the second date on, and the first date not after
    // the second when there are three or more
    assert(forall|i: int, j: int| 1 <= i < j < m ==> ld[i] < ld[j]) by {
        if d[n - 2] >= d[n - 1] {
            assert forall|i: int, j: int| 1 <= i < j < m implies ld[i] < ld[j] by {
                assert(ld[i] == d[i]);
                if j < m - 1 {
                    assert(ld[j] == d[j]);
                } else {
                    assert(ld[j] == d[n - 1]);
                }
            }
        } else {
            assert forall|i: int, j: int| 1 <= i < j < m implies ld[i] < ld[j] by {
                if j == n - 1 && i < n - 2 {
                    assert(d[i] < d[n - 2]);
                }
            }
        }
    }
    assert(m >= 3 ==> ld[0] <= ld[1]) by {
        if m >= 3 {
            assert(ld[0] == d[0] && ld[1] == d[1]);
        }
    }
    assert(m >= 2);
    let e = without_early_date(l).unwrap();
    let ed = e.0;
    if m >= 2 && ld[1] <= ld[0] {
        assert(ed =~= seq![ld[0]] + ld.subrange(2, m));
        assert forall|i: int, j: int| 0 <= i < j < ed.len() implies ed[i] < ed[j] by {
            assert(ed[j] == ld[j + 1]);
            if i > 0 {
                assert(ed[i] == ld[i + 1]);
            } else {
                assert(ld[1] < ld[j + 1]);
            }
        }
    } else {
        assert(ed == ld);
        assert forall|i: int, j: int| 0 <= i < j < ed.len() implies ed[i] < ed[j] by {
            if i == 0 && j > 1 {
                assert(ld[1] < ld[j]);
            }
        }
    }
}

/// The first `k` dates of `d` are those of `u` adjusted by `c`.
pub open spec fn adjusted_prefix(
    cal: Calendar,
    c: BusinessDayConvention,
    u: Seq<int>,
    d: Seq<int>,
    k: int,
) -> bool {
    forall|i: int|
        0 <= i < k ==> adj(cal, c, u[i]) is Some && #[trigger] d[i] == adj(cal, c, u[i]).unwrap()
}

proof fn lemma_prefix_at(
    cal: Calendar,
    c: BusinessDayConvention,
    u: Seq<int>,
    d: Seq<int>,
    k: int,
    i: int,
)
    requires
        adjusted_prefix(cal, c, u, d, k),
        0 <= i < k,
    ensures
        adj(cal, c, u[i]) is Some,
        d[i] == adj(cal, c, u[i]).unwrap(),
{
    assert(d[i] == adj(cal, c, u[i]).unwrap());
}

/// The business day adjustment of the generated dates of a plain rule: every date but the
/// last adjusted by the convention, the last one too unless the termination convention is
/// unadjusted.
#[verifier::rlimit(60)]
proof fn lemma_plain_business_adjusted(p: GenParams, u: Seq<int>)
    requires
        ordered_params(p),
        is_plain_rule(p),
        u.len() >= 2,
        business_adjusted(p, u) is Some,
    ensures
        business_adjusted(p, u).unwrap().len() == u.len(),
        adjusted_prefix(
            p.calendar,
            p.convention,
            u,
            business_adjusted(p, u).unwrap(),
            u.len() - 1,
        ),
        p.termination_convention != BusinessDayConvention::Unadjusted ==> adj(
            p.calendar,
            p.convention,
            u[u.len() - 1],
        ) is Some && business_adjusted(p, u).unwrap()[u.len() - 1] == adj(
            p.calendar,
            p.convention,
            u[u.len() - 1],
        ).unwrap(),
        p.termination_convention == BusinessDayConvention::Unadjusted ==> business_adjusted(
            p,
            u,
        ).unwrap()[u.len() - 1] == u[u.len() - 1],
{
    reveal(adj);
    let n = u.len() as int;
    let c = p.convention;
    let a0 = p.calendar.adjusted(u[0], c).unwrap();
    let d1 = u.update(0, a0);
    let d2 = adjusted_middle(p.calendar, c, d1).unwrap();
    assert(forall|i: int| 1 <= i < n - 1 ==> d1[i] == u[i]);
    assert(d2[n - 1] == u[n - 1]);
    assert(d2[0] == a0);
    let d = business_adjusted(p, u).unwrap();
    assert forall|i: int| 0 <= i < n - 1 implies adj(p.calendar, c, u[i]) is Some && #[trigger] d[i]
        == adj(p.calendar, c, u[i]).unwrap() by {
        if i > 0 {
            assert(d[i] == d2[i]);
            assert(d1[i] == u[i]);
        } else {
            assert(d[0] == d2[0]);
        }
    }
}

proof fn lemma_adj_order(cal: Calendar, c: BusinessDayConvention, s1: int, s2: int)
    requires
        is_order_keeping(c),
        is_valid_serial(s1),
        is_valid_serial(s2),
        s1 <= s2,
        adj(cal, c, s1) is Some,
        adj(cal, c, s2) is Some,
    ensures
        adj(cal, c, s1).unwrap() <= adj(cal, c, s2).unwrap(),
        c != BusinessDayConvention::Following ==> adj(cal, c, s1).unwrap() <= s1,
{
    reveal(adj);
    lemma_adjusted_order(cal, s1, s2, c);
}

proof fn lemma_adj_stretch(cal: Calendar, s: int, t: int)
    requires
        is_valid_serial(s),
        is_valid_serial(t),
        adj(cal, BusinessDayConvention::Following, s) is Some,
        s <= t < adj(cal, BusinessDayConvention::Following, s).unwrap(),
    ensures
        adj(cal, BusinessDayConvention::Following, t) == adj(
            cal,
            BusinessDayConvention::Following,
            s,
        ),
{
    reveal(adj);
    lemma_following_stretch(cal, s, t);
}

/// The order facts of the adjusted dates that the final clean-up needs.
#[verifier::rlimit(40)]
proof fn lemma_adjusted_dates_order(
    cal: Calendar,
    c: BusinessDayConvention,
    unadjusted_end: bool,
    u: Seq<int>,
    d: Seq<int>,
)
    requires
        is_order_keeping(c),
        u.len() >= 2,
        d.len() == u.len(),
        increasing(u),
        valid_dates(u),
        gated(cal, c, u, 1, u.len() - 1),
        adjusted_prefix(cal, c, u, d, u.len() - 1),
        !unadjusted_end ==> adj(cal, c, u[u.len() - 1]) is Some && d[u.len() - 1] == adj(
            cal,
            c,
            u[u.len() - 1],
        ).unwrap(),
        unadjusted_end ==> d[u.len() - 1] == u[u.len() - 1],
    ensures
        forall|i: int, j: int| 1 <= i < j <= d.len() - 2 ==> d[i] < d[j],
        forall|j: int| 1 <= j <= d.len() - 2 ==> d[0] <= #[trigger] d[j],
        forall|i: int| 1 <= i <= d.len() - 3 ==> #[trigger] d[i] < d[d.len() - 1],
{
    let n = u.len() as int;
    assert forall|i: int| 1 <= i && i + 1 <= n - 2 implies d[i] < #[trigger] d[i + 1] by {
        assert(is_valid_serial(u[i]) && is_valid_serial(u[i + 1]));
        lemma_prefix_at(cal, c, u, d, n - 1, i);
        lemma_prefix_at(cal, c, u, d, n - 1, i + 1);
        lemma_adj_order(cal, c, u[i], u[i + 1]);
        assert(adj(cal, c, u[i]) != adj(cal, c, u[i + 1]));
    }
    assert forall|i: int, j: int| 1 <= i < j <= n - 2 implies d[i] < d[j] by {
        assert(is_valid_serial(u[i]) && is_valid_serial(u[j - 1]));
        lemma_prefix_at(cal, c, u, d, n - 1, i);
        lemma_prefix_at(cal, c, u, d, n - 1, j - 1);
        if i < j - 1 {
            lemma_adj_order(cal, c, u[i], u[j - 1]);
        }
        assert(d[j - 1] < d[j - 1 + 1]);
    }
    assert forall|j: int| 1 <= j <= n - 2 implies d[0] <= #[trigger] d[j] by {
        assert(is_valid_serial(u[0]) && is_valid_serial(u[j]));
        lemma_prefix_at(cal, c, u, d, n - 1, 0);
        lemma_prefix_at(cal, c, u, d, n - 1, j);
        lemma_adj_order(cal, c, u[0], u[j]);
    }
    assert forall|i: int| 1 <= i <= n - 3 implies #[trigger] d[i] < d[n - 1] by {
        assert(is_valid_serial(u[i]) && is_valid_serial(u[n - 2]) && is_valid_serial(u[n - 1]));
        lemma_prefix_at(cal, c, u, d, n - 1, i);
        lemma_prefix_at(cal, c, u, d, n - 1, n - 3);
        lemma_prefix_at(cal, c, u, d, n - 1, n - 2);
        assert(d[i] < d[n - 2]) by {
            if i < n - 3 {
                lemma_adj_order(cal, c, u[i], u[n - 3]);
            }
            assert(d[n - 3] < d[n - 3 + 1]);
        }
        if !unadjusted_end {
            lemma_adj_order(cal, c, u[n - 2], u[n - 1]);
        } else {
            lemma_adj_order(cal, c, u[i], u[n - 2]);
            if c == BusinessDayConvention::Following && d[i] >= u[n - 1] {
                assert(is_valid_serial(u[i + 1]));
                assert(u[i + 1] <= u[n - 2]);
                lemma_prefix_at(cal, c, u, d, n - 1, i + 1);
                lemma_adj_stretch(cal, u[i], u[i + 1]);
                assert(adj(cal, c, u[i]) != adj(cal, c, u[i + 1]));
                assert(false);
            }
        }
    }
}

/// The adjusted dates of a plain rule: the business day adjustment, of the same length.
proof fn lemma_plain_adjusted_dates(p: GenParams, seed: int, u: Seq<int>)
    requires
        ordered_params(p),
        is_plain_rule(p),
        u.len() >= 1,
        adjusted_dates(p, seed, u) is Ok,
    ensures
        business_adjusted(p, u) is Some,
        adjusted_dates(p, seed, u) == Ok::<Seq<int>, crate::datetime::schedule_rules::ScheduleError>(
            business_adjusted(p, u).unwrap(),
        ),
        business_adjusted(p, u).unwrap().len() == u.len(),
{
    assert(third_wednesday_dates(p.rule, u) == u);
}

/// A plain rule's schedule dates are the clean-up of the adjusted generated dates.
proof fn lemma_schedule_dates_parts(p: GenParams)
    requires
        ordered_params(p),
        is_plain_rule(p),
        schedule_dates(p) is Ok,
    ensures
        generated(p) is Ok,
        generated(p).unwrap().0.0.len() >= 1,
        business_adjusted(p, generated(p).unwrap().0.0) is Some,
        business_adjusted(p, generated(p).unwrap().0.0).unwrap().len() == generated(
            p,
        ).unwrap().0.0.len(),
        schedule_dates(p) == trimmed(
            (business_adjusted(p, generated(p).unwrap().0.0).unwrap(), generated(p).unwrap().0.1),
        ),
{
    lemma_generated_gated(p);
    let ((u, reg), seed) = generated(p).unwrap();
    lemma_plain_adjusted_dates(p, seed, u);
}

/// The clean-up of adjusted dates with the order facts of [lemma_adjusted_dates_order] is
/// in increasing order.
proof fn lemma_trim_of_adjusted(
    cal: Calendar,
    c: BusinessDayConvention,
    unadjusted_end: bool,
    u: Seq<int>,
    d: Seq<int>,
    reg: Seq<bool>,
)
    requires
        is_order_keeping(c),
        u.len() >= 1,
        d.len() == u.len(),
        reg.len() + 1 == u.len(),
        increasing(u),
        valid_dates(u),
        gated(cal, c, u, 1, u.len() - 1),
        adjusted_prefix(cal, c, u, d, u.len() - 1),
        u.len() >= 2 && !unadjusted_end ==> adj(cal, c, u[u.len() - 1]) is Some && d[u.len()
            - 1] == adj(cal, c, u[u.len() - 1]).unwrap(),
        u.len() >= 2 && unadjusted_end ==> d[u.len() - 1] == u[u.len() - 1],
        trimmed((d, reg)) is Ok,
    ensures
        increasing(trimmed((d, reg)).unwrap().0),
{
    if u.len() < 2 {
        assert(trimmed((d, reg)) is Err);
    } else {
        lemma_adjusted_dates_order(cal, c, unadjusted_end, u, d);
        lemma_trimmed_increasing(d, reg);
    }
}

/// The schedule dates of a plain rule under [ordered_params] are in increasing order.
proof fn lemma_ordered_schedule_dates(p: GenParams)
    requires
        ordered_params(p),
        is_plain_rule(p),
        schedule_dates(p) is Ok,
    ensures
        increasing(schedule_dates(p).unwrap().0),
{
    lemma_schedule_dates_parts(p);
    lemma_generated_gated(p);
    if generated(p).unwrap().0.0.len() >= 2 {
        lemma_plain_business_adjusted(p, generated(p).unwrap().0.0);
    }
    lemma_trim_of_adjusted(
        p.calendar,
        p.convention,
        p.termination_convention == BusinessDayConvention::Unadjusted,
        generated(p).unwrap().0.0,
        business_adjusted(p, generated(p).unwrap().0.0).unwrap(),
        generated(p).unwrap().0.1,
    );
}

/// A forward or backward schedule without the end-of-month rule, whose dates are adjusted to
/// the following or preceding business day or not at all (any termination convention), has
/// its dates in increasing order, so without repeats, as long as a given first date is not
/// after a given next to last date.
pub proof fn lemma_schedule_order(
    eval: int,
    effective: int,
    termination: int,
    tenor: Period,
    calendar: Calendar,
    convention: BusinessDayConvention,
    termination_convention: BusinessDayConvention,
    rule: DateGenerationRule,
    first: int,
    next_to_last: int,
)
    requires
        rule == DateGenerationRule::Forward || rule == DateGenerationRule::Backward,
        is_order_keeping(convention),
        is_valid_serial(effective),
        is_valid_serial(termination),
        is_valid_serial(first),
        is_valid_serial(next_to_last),
        first == null_serial() || first == effective || next_to_last == null_serial()
            || next_to_last == termination || first <= next_to_last,
        schedule_outcome(
            eval,
            effective,
            termination,
            tenor,
            calendar,
            convention,
            termination_convention,
            rule,
            false,
            first,
            next_to_last,
        ) is Ok,
    ensures
        increasing(
            schedule_outcome(
                eval,
                effective,
                termination,
                tenor,
                calendar,
                convention,
                termination_convention,
                rule,
                false,
                first,
                next_to_last,
            ).unwrap().dates,
        ),
{
    let (eff, rule_n) = validated_inputs(
        eval,
        effective,
        termination,
        tenor,
        rule,
        first,
        next_to_last,
    ).unwrap();
    let first_n = if first == effective {
        null_serial()
    } else {
        first
    };
    let ntl_n = if next_to_last == termination {
        null_serial()
    } else {
        next_to_last
    };
    let p = GenParams {
        calendar,
        convention,
        termination_convention,
        tenor,
        rule: rule_n,
        end_of_month: false,
        effective: eff,
        termination,
        first: first_n,
        next_to_last: ntl_n,
    };
    if effective == null_serial() && first == null_serial() && rule == DateGenerationRule::Backward
        && next_to_last != null_serial() {
        let y = crate::datetime::schedule_rules::quotient_toward_zero(next_to_last - eval, 366) + 1;
        lemma_moved_by_months(next_to_last, -y, TimeUnit::Years);
    }
    assert(ordered_params(p));
    assert(is_plain_rule(p));
    lemma_ordered_schedule_dates(p);
}

/// Generation parameters with nothing to adjust and no end-of-month rule, whose dates are
/// valid, with the effective date before the termination date.
pub open spec fn unadjusted_params(p: GenParams) -> bool {
    &&& p.convention == BusinessDayConvention::Unadjusted
    &&& p.termination_convention == BusinessDayConvention::Unadjusted
    &&& !p.end_of_month
    &&& is_valid_serial(p.effective)
    &&& is_valid_serial(p.termination)
    &&& is_valid_serial(p.first)
    &&& is_valid_serial(p.next_to_last)
    &&& p.effective < p.termination
}

/// Dates being generated: at least one, all valid, one regularity flag per period.
pub open spec fn state_valid(st: GenState) -> bool {
    &&& st.0.len() >= 1
    &&& valid_dates(st.0)
    &&& st.1.len() + 1 == st.0.len()
}

proof fn lemma_forward_steps_ends(p: GenParams, seed: int, k: int, st: GenState)
    requires
        unadjusted_params(p),
        p.tenor.length > 0,
        is_valid_serial(seed),
        1 <= k,
        state_valid(st),
        st.0[0] == p.effective,
        forward_steps(p, seed, k, st) is Ok,
    ensures
        state_valid(forward_steps(p, seed, k, st).unwrap()),
        forward_steps(p, seed, k, st).unwrap().0[0] == p.effective,
    decreases i32::MAX - k,
{
    let (dates, reg) = st;
    let len = p.tenor.length as int;
    let t = null_advanced(seed, k * len, p.tenor.unit, BusinessDayConvention::Unadjusted, false).unwrap();
    lemma_null_advanced_value(seed, k * len, p.tenor.unit);
    let exit = forward_exit(p);
    if t > exit {
        assert(dates.push(p.next_to_last)[0] == dates[0]);
    } else {
        let next = if dates.last() != t {
            (dates.push(t), reg.push(true))
        } else {
            st
        };
        assert(next.0[0] == dates[0]);
        lemma_forward_steps_ends(p, seed, k + 1, next);
    }
}

proof fn lemma_backward_steps_ends(p: GenParams, seed: int, k: int, st: GenState)
    requires
        unadjusted_params(p),
        p.tenor.length > 0,
        is_valid_serial(seed),
        1 <= k,
        state_valid(st),
        st.0.last() == p.termination,
        backward_steps(p, seed, k, st) is Ok,
    ensures
        state_valid(backward_steps(p, seed, k, st).unwrap()),
        backward_steps(p, seed, k, st).unwrap().0.last() == p.termination,
    decreases i32::MAX - k,
{
    let (dates, reg) = st;
    let len = p.tenor.length as int;
    let t = null_advanced(seed, -(k * len), p.tenor.unit, BusinessDayConvention::Unadjusted, false).unwrap();
    lemma_null_advanced_value(seed, -(k * len), p.tenor.unit);
    let exit = backward_exit(p);
    if t < exit {
        let d2 = seq![p.first] + dates;
        assert(d2.last() == dates.last());
        assert(valid_dates(d2)) by {
            assert forall|i: int| 0 <= i < d2.len() implies is_valid_serial(#[trigger] d2[i]) by {
                if i > 0 {
                    assert(d2[i] == dates[i - 1]);
                }
            }
        }
    } else {
        let d2 = seq![t] + dates;
        assert(d2.last() == dates.last());
        assert(valid_dates(d2)) by {
            assert forall|i: int| 0 <= i < d2.len() implies is_valid_serial(#[trigger] d2[i]) by {
                if i > 0 {
                    assert(d2[i] == dates[i - 1]);
                }
            }
        }
        let next = if dates[0] != t {
            (d2, seq![true] + reg)
        } else {
            st
        };
        lemma_backward_steps_ends(p, seed, k + 1, next);
    }
}

/// The dates a plain rule generates with nothing to adjust: valid, from the effective date to
/// the termination date, with one regularity flag per period.
#[verifier::rlimit(40)]
proof fn lemma_generated_ends(p: GenParams)
    requires
        unadjusted_params(p),
        is_plain_rule(p),
        generated(p) is Ok,
    ensures
        ({
            let (dates, reg) = generated(p).unwrap().0;
            &&& state_valid((dates, reg))
            &&& dates[0] == p.effective
            &&& dates.last() == p.termination
        }),
{
    let len = p.tenor.length as int;
    if p.rule == DateGenerationRule::Zero {
    } else if p.rule == DateGenerationRule::Backward {
        let (st, seed) = backward_start(p).unwrap();
        if p.next_to_last != null_serial() {
            assert(seq![p.next_to_last, p.termination].last() == p.termination);
        }
        lemma_backward_steps_ends(p, seed, 1, st);
        let st2 = backward_steps(p, seed, 1, st).unwrap();
        let d2 = seq![p.effective] + st2.0;
        assert(d2.last() == st2.0.last());
        assert(valid_dates(d2)) by {
            assert forall|i: int| 0 <= i < d2.len() implies is_valid_serial(#[trigger] d2[i]) by {
                if i > 0 {
                    assert(d2[i] == st2.0[i - 1]);
                }
            }
        }
    } else {
        let head = forward_head(p).unwrap();
        assert(head == (seq![p.effective], Seq::<bool>::empty()));
        let (st, seed) = forward_start(p).unwrap();
        if p.first != null_serial() {
            lemma_null_advanced_value(p.effective, len, p.tenor.unit);
        }
        lemma_forward_steps_ends(p, seed, 1, st);
    }
}

/// A plain rule with nothing to adjust keeps the effective date first and the termination
/// date last through the adjustments and the final clean-up.
#[verifier::rlimit(60)]
proof fn lemma_unadjusted_schedule_ends(p: GenParams)
    requires
        unadjusted_params(p),
        is_plain_rule(p),
        schedule_dates(p) is Ok,
    ensures
        schedule_dates(p).unwrap().0[0] == p.effective,
        schedule_dates(p).unwrap().0.last() == p.termination,
{
    lemma_generated_ends(p);
    let ((dates, reg), seed) = generated(p).unwrap();
    let n = dates.len();
    assert(third_wednesday_dates(p.rule, dates) == dates);
    if n >= 2 {
        assert(adjusted_middle(p.calendar, p.convention, dates) == Some(dates)) by {
            assert forall|i: int| 1 <= i < n - 1 implies (#[trigger] p.calendar.adjusted(
                dates[i],
                p.convention,
            )) is Some by {
                assert(is_valid_serial(dates[i]));
            }
            let sq = Seq::new(
                n,
                |i: int|
                    if 1 <= i < n - 1 {
                        p.calendar.adjusted(dates[i], p.convention).unwrap()
                    } else {
                        dates[i]
                    },
            );
            assert forall|i: int| 0 <= i < n implies sq[i] == dates[i] by {
                if 1 <= i < n - 1 {
                    assert(is_valid_serial(dates[i]));
                }
            }
            assert(sq =~= dates);
        }
        assert(is_valid_serial(dates[0]));
        assert(dates.update(0, dates[0]) =~= dates);
        assert(business_adjusted(p, dates) == Some(dates));
        assert(adjusted_dates(p, seed, dates) == Ok::<Seq<int>, crate::datetime::schedule_rules::ScheduleError>(dates));
        let l = without_late_date((dates, reg));
        assert(l.0[0] == dates[0] && l.0.last() == dates.last());
        let e = without_early_date(l).unwrap();
        assert(e.0[0] == dates[0] && e.0.last() == dates.last());
    } else {
        assert(n == 1);
        assert(dates[0] == dates.last());
        assert(false);
    }
}

/// A forward or backward schedule with unadjusted conventions and no end-of-month rule starts
/// at the effective date (when one is given) and ends at the termination date.
pub proof fn lemma_unadjusted_schedule_ends_at_inputs(
    eval: int,
    effective: int,
    termination: int,
    tenor: Period,
    calendar: Calendar,
    rule: DateGenerationRule,
    first: int,
    next_to_last: int,
)
    requires
        rule == DateGenerationRule::Forward || rule == DateGenerationRule::Backward,
        is_valid_serial(effective),
        is_valid_serial(termination),
        is_valid_serial(first),
        is_valid_serial(next_to_last),
        schedule_outcome(
            eval,
            effective,
            termination,
            tenor,
            calendar,
            BusinessDayConvention::Unadjusted,
            BusinessDayConvention::Unadjusted,
            rule,
            false,
            first,
            next_to_last,
        ) is Ok,
    ensures
        ({
            let m = schedule_outcome(
                eval,
                effective,
                termination,
                tenor,
                calendar,
                BusinessDayConvention::Unadjusted,
                BusinessDayConvention::Unadjusted,
                rule,
                false,
                first,
                next_to_last,
            ).unwrap();
            &&& m.dates.last() == termination
            &&& effective != null_serial() ==> m.dates[0] == effective
        }),
{
    let (eff, rule_n) = validated_inputs(
        eval,
        effective,
        termination,
        tenor,
        rule,
        first,
        next_to_last,
    ).unwrap();
    let first_n = if first == effective {
        null_serial()
    } else {
        first
    };
    let ntl_n = if next_to_last == termination {
        null_serial()
    } else {
        next_to_last
    };
    let p = GenParams {
        calendar,
        convention: BusinessDayConvention::Unadjusted,
        termination_convention: BusinessDayConvention::Unadjusted,
        tenor,
        rule: rule_n,
        end_of_month: false,
        effective: eff,
        termination,
        first: first_n,
        next_to_last: ntl_n,
    };
    if effective == null_serial() && first == null_serial() && rule == DateGenerationRule::Backward
        && next_to_last != null_serial() {
        let y = crate::datetime::schedule_rules::quotient_toward_zero(next_to_last - eval, 366) + 1;
        lemma_moved_by_months(next_to_last, -y, TimeUnit::Years);
    }
    assert(unadjusted_params(p));
    assert(is_plain_rule(p));
    lemma_unadjusted_schedule_ends(p);
}

/// The third Wednesday of the month of a valid date is an IMM date.
proof fn lemma_third_wednesday_of(d: int)
    requires
        is_valid_serial(d),
    ensures
        is_valid_serial(third_wednesday_of(d)),
        is_imm_date_spec(third_wednesday_of(d), false),
        year_of_serial(third_wednesday_of(d)) == year_of_serial(d),
        month_of_serial(third_wednesday_of(d)) == month_of_serial(d),
{
    lemma_serial_has_date(d);
    lemma_third_wednesday(year_of_serial(d), month_of_serial(d));
}

/// The third Wednesday rules generate forward from the effective date to the termination
/// date, with valid dates.
#[verifier::rlimit(40)]
proof fn lemma_third_wednesday_generated(p: GenParams)
    requires
        unadjusted_params(p),
        p.rule == DateGenerationRule::ThirdWednesday || p.rule
            == DateGenerationRule::ThirdWednesdayInclusive,
        p.tenor.length > 0,
        generated(p) is Ok,
    ensures
        ({
            let (dates, reg) = generated(p).unwrap().0;
            &&& state_valid((dates, reg))
            &&& dates[0] == p.effective
            &&& dates.last() == p.termination
        }),
{
    let len = p.tenor.length as int;
    let head = forward_head(p).unwrap();
    assert(head == (seq![p.effective], Seq::<bool>::empty()));
    let (st, seed) = forward_start(p).unwrap();
    if p.first != null_serial() {
        lemma_null_advanced_value(p.effective, len, p.tenor.unit);
    }
    lemma_forward_steps_ends(p, seed, 1, st);
}

/// Every date strictly between the first and the last is an IMM date.
pub open spec fn imm_inside(d: Seq<int>) -> bool {
    forall|i: int| 0 < i < d.len() - 1 ==> is_imm_date_spec(#[trigger] d[i], false)
}

/// Every date but the first falls on the 20th of its month.
pub open spec fn twentieths_after_first(d: Seq<int>) -> bool {
    forall|i: int| 0 < i < d.len() ==> day_of_serial(#[trigger] d[i]) == 20
}

/// Every date is an IMM date.
pub open spec fn imm_throughout(d: Seq<int>) -> bool {
    forall|i: int| 0 <= i < d.len() ==> is_imm_date_spec(#[trigger] d[i], false)
}

/// The final clean-up keeps the first and the last date, and only drops dates in between.
#[verifier::rlimit(40)]
proof fn lemma_trimmed_keeps(d: Seq<int>, reg: Seq<bool>)
    requires
        d.len() >= 2,
        trimmed((d, reg)) is Ok,
    ensures
        trimmed((d, reg)).unwrap().0[0] == d[0],
        trimmed((d, reg)).unwrap().0.last() == d.last(),
        imm_inside(d) ==> imm_inside(trimmed((d, reg)).unwrap().0),
        imm_throughout(d) ==> imm_throughout(trimmed((d, reg)).unwrap().0),
        twentieths_after_first(d) ==> twentieths_after_first(trimmed((d, reg)).unwrap().0),
{
    let n = d.len() as int;
    let l = without_late_date((d, reg));
    let ld = l.0;
    let m = ld.len() as int;
    if d[n - 2] >= d[n - 1] {
        assert(ld =~= d.take(n - 2).push(d[n - 1]));
        assert forall|i: int| 0 <= i < m - 1 implies ld[i] == d[i] by {}
    } else {
        assert(ld == d);
    }
    assert(ld[0] == d[0]);
    assert(ld.last() == d.last());
    let e = without_early_date(l).unwrap();
    let ed = e.0;
    if m >= 2 && ld[1] <= ld[0] {
        assert(ed =~= seq![ld[0]] + ld.subrange(2, m));
        assert forall|i: int| 0 < i < ed.len() implies ed[i] == ld[i + 1] by {}
    } else {
        assert(ed == ld);
    }
    if imm_inside(d) {
        assert forall|i: int| 0 < i < ld.len() - 1 implies is_imm_date_spec(#[trigger] ld[i], false) by {
            assert(ld[i] == d[i]);
        }
        assert forall|i: int| 0 < i < ed.len() - 1 implies is_imm_date_spec(#[trigger] ed[i], false) by {
            if m >= 2 && ld[1] <= ld[0] {
                assert(ed[i] == ld[i + 1]);
            }
        }
    }
    if twentieths_after_first(d) {
        assert forall|i: int| 0 < i < ld.len() implies day_of_serial(#[trigger] ld[i]) == 20 by {
            if i < m - 1 {
                assert(ld[i] == d[i]);
            } else {
                assert(ld[i] == d[n - 1]);
            }
        }
        assert forall|i: int| 0 < i < ed.len() implies day_of_serial(#[trigger] ed[i]) == 20 by {
            if m >= 2 && ld[1] <= ld[0] {
                assert(ed[i] == ld[i + 1]);
            }
        }
    }
    if imm_throughout(d) {
        assert forall|i: int| 0 <= i < ld.len() implies is_imm_date_spec(#[trigger] ld[i], false) by {
            if i < m - 1 {
                assert(ld[i] == d[i]);
            } else {
                assert(ld[i] == d[n - 1]);
            }
        }
        assert forall|i: int| 0 <= i < ed.len() implies is_imm_date_spec(#[trigger] ed[i], false) by {
            if m >= 2 && ld[1] <= ld[0] && i > 0 {
                assert(ed[i] == ld[i + 1]);
            }
        }
    }
}

/// With nothing to adjust, the business day adjustment leaves valid dates as they are.
proof fn lemma_unadjusted_business_adjusted(p: GenParams, d: Seq<int>)
    requires
        p.convention == BusinessDayConvention::Unadjusted,
        p.termination_convention == BusinessDayConvention::Unadjusted,
        d.len() >= 1,
        valid_dates(d),
    ensures
        business_adjusted(p, d) == Some(d),
{
    let n = d.len();
    assert(adjusted_middle(p.calendar, p.convention, d) == Some(d)) by {
        assert forall|i: int| 1 <= i < n - 1 implies (#[trigger] p.calendar.adjusted(
            d[i],
            p.convention,
        )) is Some by {
            assert(is_valid_serial(d[i]));
        }
        let sq = Seq::new(
            n,
            |i: int|
                if 1 <= i < n - 1 {
                    p.calendar.adjusted(d[i], p.convention).unwrap()
                } else {
                    d[i]
                },
        );
        assert forall|i: int| 0 <= i < n implies sq[i] == d[i] by {
            if 1 <= i < n - 1 {
                assert(is_valid_serial(d[i]));
            }
        }
        assert(sq =~= d);
    }
    assert(is_valid_serial(d[0]));
    assert(d.update(0, d[0]) =~= d);
}

/// The schedule dates of the third Wednesday rules with nothing to adjust: with
/// `ThirdWednesday` the effective date first, the termination date last, and IMM dates in
/// between; with `ThirdWednesdayInclusive` IMM dates throughout.
#[verifier::rlimit(40)]
proof fn lemma_third_wednesday_schedule_dates(p: GenParams)
    requires
        unadjusted_params(p),
        p.rule == DateGenerationRule::ThirdWednesday || p.rule
            == DateGenerationRule::ThirdWednesdayInclusive,
        p.tenor.length > 0,
        schedule_dates(p) is Ok,
    ensures
        p.rule == DateGenerationRule::ThirdWednesday ==> {
            &&& schedule_dates(p).unwrap().0[0] == p.effective
            &&& schedule_dates(p).unwrap().0.last() == p.termination
            &&& imm_inside(schedule_dates(p).unwrap().0)
        },
        p.rule == DateGenerationRule::ThirdWednesdayInclusive ==> imm_throughout(
            schedule_dates(p).unwrap().0,
        ),
{
    lemma_third_wednesday_generated(p);
    let ((dates, reg), seed) = generated(p).unwrap();
    let n = dates.len() as int;
    assert(n >= 2) by {
        if n < 2 {
            assert(dates[0] == dates.last());
        }
    }
    let tw = third_wednesday_dates(p.rule, dates);
    assert(tw.len() == n);
    assert(valid_dates(tw) && (p.rule == DateGenerationRule::ThirdWednesday ==> imm_inside(tw))
        && (p.rule == DateGenerationRule::ThirdWednesdayInclusive ==> imm_throughout(tw))) by {
        assert forall|i: int| 0 <= i < n implies is_valid_serial(#[trigger] tw[i]) && ((
        p.rule == DateGenerationRule::ThirdWednesdayInclusive || 0 < i < n - 1)
            ==> is_imm_date_spec(tw[i], false)) by {
            assert(is_valid_serial(dates[i]));
            lemma_third_wednesday_of(dates[i]);
        }
    }
    lemma_unadjusted_business_adjusted(p, tw);
    assert(adjusted_dates(p, seed, dates) == Ok::<Seq<int>, crate::datetime::schedule_rules::ScheduleError>(tw));
    assert(schedule_dates(p) == trimmed((tw, reg)));
    lemma_trimmed_keeps(tw, reg);
}

/// A schedule built by the `ThirdWednesday` rule with nothing to adjust starts at the
/// effective date and ends at the termination date, and every date in between is an IMM
/// date (the third Wednesday of its month); one built by `ThirdWednesdayInclusive` has IMM
/// dates throughout (a zero tenor, which gives the two ends alone, apart).
pub proof fn lemma_third_wednesday_schedule(
    eval: int,
    effective: int,
    termination: int,
    tenor: Period,
    calendar: Calendar,
    rule: DateGenerationRule,
    end_of_month: bool,
    first: int,
    next_to_last: int,
)
    requires
        rule == DateGenerationRule::ThirdWednesday || rule
            == DateGenerationRule::ThirdWednesdayInclusive,
        is_valid_serial(effective),
        is_valid_serial(termination),
        is_valid_serial(first),
        is_valid_serial(next_to_last),
        schedule_outcome(
            eval,
            effective,
            termination,
            tenor,
            calendar,
            BusinessDayConvention::Unadjusted,
            BusinessDayConvention::Unadjusted,
            rule,
            end_of_month,
            first,
            next_to_last,
        ) is Ok,
    ensures
        ({
            let d = schedule_outcome(
                eval,
                effective,
                termination,
                tenor,
                calendar,
                BusinessDayConvention::Unadjusted,
                BusinessDayConvention::Unadjusted,
                rule,
                end_of_month,
                first,
                next_to_last,
            ).unwrap().dates;
            &&& rule == DateGenerationRule::ThirdWednesday || tenor.length == 0 ==> d[0]
                == effective && d.last() == termination
            &&& imm_inside(d)
            &&& rule == DateGenerationRule::ThirdWednesdayInclusive && tenor.length != 0
                ==> imm_throughout(d)
        }),
{
    let (eff, rule_n) = validated_inputs(
        eval,
        effective,
        termination,
        tenor,
        rule,
        first,
        next_to_last,
    ).unwrap();
    let first_n = if first == effective {
        null_serial()
    } else {
        first
    };
    let ntl_n = if next_to_last == termination {
        null_serial()
    } else {
        next_to_last
    };
    let eom_n = crate::datetime::schedule_rules::allows_end_of_month_spec(tenor) && end_of_month;
    let p = GenParams {
        calendar,
        convention: BusinessDayConvention::Unadjusted,
        termination_convention: BusinessDayConvention::Unadjusted,
        tenor,
        rule: rule_n,
        end_of_month: eom_n,
        effective: eff,
        termination,
        first: first_n,
        next_to_last: ntl_n,
    };
    assert(eff == effective);
    if rule_n == DateGenerationRule::Zero {
        assert(p.first == null_serial() && p.next_to_last == null_serial());
        assert(unadjusted_params(p));
        assert(is_plain_rule(p));
        lemma_unadjusted_schedule_ends(p);
    } else {
        assert(!eom_n) by {
            if eom_n {
                assert(generated(p) is Err);
            }
        }
        assert(unadjusted_params(p));
        lemma_third_wednesday_schedule_dates(p);
        if rule == DateGenerationRule::ThirdWednesdayInclusive {
            let d = schedule_dates(p).unwrap().0;
            assert forall|i: int| 0 < i < d.len() - 1 implies is_imm_date_spec(#[trigger] d[i], false) by {
                assert(is_imm_date_spec(d[i], false));
            }
        }
    }
}

/// The date `k` tenors away from `s` in the calendar without holidays, with nothing to
/// adjust.
pub open spec fn tenors_away(s: int, k: int, tenor: Period) -> Option<int> {
    null_advanced(s, k * tenor.length, tenor.unit, BusinessDayConvention::Unadjusted, false)
}

proof fn lemma_forward_regular(p: GenParams, k: int, st: GenState)
    requires
        plain_params(p),
        p.rule == DateGenerationRule::Forward || p.rule == DateGenerationRule::ThirdWednesday,
        p.first == null_serial(),
        p.next_to_last == null_serial(),
        p.tenor.length > 0,
        1 <= k,
        st.0.len() == k,
        st.1.len() + 1 == k,
        forall|j: int| 0 <= j < k ==> tenors_away(p.effective, j, p.tenor) == Some(#[trigger] st.0[j]),
        st.0[k - 1] <= p.termination,
        forward_steps(p, p.effective, k, st) is Ok,
    ensures
        ({
            let r = forward_steps(p, p.effective, k, st).unwrap();
            &&& r.0.len() >= k
            &&& r.1.len() + 1 == r.0.len()
            &&& forall|j: int|
                0 <= j < r.0.len() ==> tenors_away(p.effective, j, p.tenor) == Some(
                    #[trigger] r.0[j],
                )
            &&& tenors_away(p.effective, r.0.len() as int, p.tenor) is Some
            &&& tenors_away(p.effective, r.0.len() as int, p.tenor).unwrap() > p.termination
            &&& r.0.last() <= p.termination
        }),
    decreases i32::MAX - k,
{
    let (dates, reg) = st;
    let len = p.tenor.length as int;
    let t = null_advanced(p.effective, k * len, p.tenor.unit, BusinessDayConvention::Unadjusted, false).unwrap();
    assert((k - 1) * len < k * len) by (nonlinear_arith)
        requires
            len > 0,
    ;
    assert(tenors_away(p.effective, k - 1, p.tenor) == Some(dates[k - 1]));
    lemma_null_advanced_order(p.effective, (k - 1) * len, k * len, p.tenor.unit);
    if t > p.termination {
    } else {
        let next = (dates.push(t), reg.push(true));
        assert(apart_after_adjustment(p.calendar, dates.last(), t, p.convention) == Some(true)) by {
            lemma_null_advanced_value(p.effective, k * len, p.tenor.unit);
            lemma_null_advanced_value(p.effective, (k - 1) * len, p.tenor.unit);
        }
        assert forall|j: int| 0 <= j < k + 1 implies tenors_away(p.effective, j, p.tenor) == Some(
            #[trigger] next.0[j],
        ) by {
            if j < k {
                assert(next.0[j] == dates[j]);
            }
        }
        lemma_forward_regular(p, k + 1, next);
    }
}

/// With increasing dates, the final clean-up changes nothing.
proof fn lemma_trimmed_increasing_noop(d: Seq<int>, reg: Seq<bool>)
    requires
        d.len() >= 2,
        increasing(d),
    ensures
        trimmed((d, reg)) == Ok::<GenState, crate::datetime::schedule_rules::ScheduleError>((d, reg)),
{
    assert(d[d.len() - 2] < d[d.len() - 1]);
    assert(d[0] < d[1]);
}

#[verifier::rlimit(40)]
proof fn lemma_forward_regular_dates(p: GenParams)
    requires
        plain_params(p),
        p.rule == DateGenerationRule::Forward,
        p.first == null_serial(),
        p.next_to_last == null_serial(),
        p.tenor.length > 0,
        schedule_dates(p) is Ok,
    ensures
        ({
            let d = schedule_dates(p).unwrap().0;
            let n = d.len() as int;
            &&& d.last() == p.termination
            &&& forall|k: int| 0 <= k < n - 1 ==> tenors_away(p.effective, k, p.tenor) == Some(#[trigger] d[k])
            &&& tenors_away(p.effective, n - 1, p.tenor) is Some
            &&& tenors_away(p.effective, n - 1, p.tenor).unwrap() >= p.termination
        }),
{
    lemma_generated(p);
    let ((dates, reg), seed) = generated(p).unwrap();
    let head = forward_head(p).unwrap();
    assert(head == (seq![p.effective], Seq::<bool>::empty()));
    let (st, seed0) = forward_start(p).unwrap();
    assert(seed0 == p.effective);
    assert(tenors_away(p.effective, 0, p.tenor) == Some(p.effective));
    lemma_forward_regular(p, 1, st);
    let r0 = forward_steps(p, p.effective, 1, st).unwrap();
    assert(third_wednesday_dates(p.rule, dates) == dates);
    lemma_unadjusted_business_adjusted(p, dates);
    assert(adjusted_dates(p, seed, dates) == Ok::<Seq<int>, crate::datetime::schedule_rules::ScheduleError>(dates));
    lemma_trimmed_increasing_noop(dates, reg);
    assert(schedule_dates(p).unwrap().0 == dates);
    let n = dates.len() as int;
    if r0.0.last() != p.termination {
        assert(dates == r0.0.push(p.termination));
        assert forall|k: int| 0 <= k < n - 1 implies tenors_away(p.effective, k, p.tenor) == Some(
            #[trigger] dates[k],
        ) by {
            assert(dates[k] == r0.0[k]);
        }
    } else {
        assert(dates == r0.0);
        assert(tenors_away(p.effective, n - 1, p.tenor) == Some(dates[n - 1]));
    }
}

/// A forward schedule with nothing to adjust, no end-of-month rule and no stub dates holds the
/// effective date advanced by whole tenors (0, 1, 2, ...) for as long as those fall before
/// the termination date, then the termination date; the next whole tenor would not fall
/// before it.
pub proof fn lemma_forward_schedule_dates(
    eval: int,
    effective: int,
    termination: int,
    tenor: Period,
    calendar: Calendar,
)
    requires
        is_valid_serial(effective),
        is_valid_serial(termination),
        tenor.length > 0,
        schedule_outcome(
            eval,
            effective,
            termination,
            tenor,
            calendar,
            BusinessDayConvention::Unadjusted,
            BusinessDayConvention::Unadjusted,
            DateGenerationRule::Forward,
            false,
            null_serial(),
            null_serial(),
        ) is Ok,
    ensures
        ({
            let d = schedule_outcome(
                eval,
                effective,
                termination,
                tenor,
                calendar,
                BusinessDayConvention::Unadjusted,
                BusinessDayConvention::Unadjusted,
                DateGenerationRule::Forward,
                false,
                null_serial(),
                null_serial(),
            ).unwrap().dates;
            let n = d.len() as int;
            &&& d.last() == termination
            &&& forall|k: int| 0 <= k < n - 1 ==> tenors_away(effective, k, tenor) == Some(#[trigger] d[k])
            &&& tenors_away(effective, n - 1, tenor) is Some
            &&& tenors_away(effective, n - 1, tenor).unwrap() >= termination
        }),
{
    let (eff, rule_n) = validated_inputs(
        eval,
        effective,
        termination,
        tenor,
        DateGenerationRule::Forward,
        null_serial(),
        null_serial(),
    ).unwrap();
    let p = GenParams {
        calendar,
        convention: BusinessDayConvention::Unadjusted,
        termination_convention: BusinessDayConvention::Unadjusted,
        tenor,
        rule: rule_n,
        end_of_month: false,
        effective: eff,
        termination,
        first: null_serial(),
        next_to_last: null_serial(),
    };
    assert(eff == effective);
    assert(plain_params(p));
    lemma_forward_regular_dates(p);
}

proof fn lemma_backward_regular(p: GenParams, k: int, st: GenState)
    requires
        plain_params(p),
        p.rule == DateGenerationRule::Backward,
        p.first == null_serial(),
        p.next_to_last == null_serial(),
        p.tenor.length > 0,
        1 <= k,
        st.0.len() == k,
        st.1.len() + 1 == k,
        forall|j: int|
            0 <= j < k ==> tenors_away(p.termination, -j, p.tenor) == Some(
                #[trigger] st.0[k - 1 - j],
            ),
        st.0[0] >= p.effective,
        backward_steps(p, p.termination, k, st) is Ok,
    ensures
        ({
            let r = backward_steps(p, p.termination, k, st).unwrap();
            let m = r.0.len() as int;
            &&& m >= k
            &&& r.1.len() + 1 == m
            &&& forall|j: int|
                0 <= j < m ==> tenors_away(p.termination, -j, p.tenor) == Some(
                    #[trigger] r.0[m - 1 - j],
                )
            &&& tenors_away(p.termination, -m, p.tenor) is Some
            &&& tenors_away(p.termination, -m, p.tenor).unwrap() < p.effective
            &&& r.0[0] >= p.effective
        }),
    decreases i32::MAX - k,
{
    let (dates, reg) = st;
    let len = p.tenor.length as int;
    let t = null_advanced(p.termination, -(k * len), p.tenor.unit, BusinessDayConvention::Unadjusted, false).unwrap();
    assert(-(k * len) < -((k - 1) * len)) by (nonlinear_arith)
        requires
            len > 0,
    ;
    assert((-k) * len == -(k * len)) by (nonlinear_arith);
    assert((-(k - 1)) * len == -((k - 1) * len)) by (nonlinear_arith);
    assert(tenors_away(p.termination, -(k - 1), p.tenor) == Some(dates[k - 1 - (k - 1)]));
    lemma_null_advanced_order(p.termination, -(k * len), -((k - 1) * len), p.tenor.unit);
    if t < p.effective {
    } else {
        let next = (seq![t] + dates, seq![true] + reg);
        assert(apart_after_adjustment(p.calendar, dates[0], t, p.convention) == Some(true)) by {
            lemma_null_advanced_value(p.termination, -(k * len), p.tenor.unit);
            lemma_null_advanced_value(p.termination, -((k - 1) * len), p.tenor.unit);
        }
        assert forall|j: int| 0 <= j < k + 1 implies tenors_away(p.termination, -j, p.tenor)
            == Some(#[trigger] next.0[k + 1 - 1 - j]) by {
            if j < k {
                assert(next.0[k - j] == dates[k - 1 - j]);
            } else {
                assert((-j) * len == -(k * len)) by (nonlinear_arith)
                    requires
                        j == k,
                ;
            }
        }
        lemma_backward_regular(p, k + 1, next);
    }
}

#[verifier::rlimit(40)]
proof fn lemma_backward_regular_dates(p: GenParams)
    requires
        plain_params(p),
        p.rule == DateGenerationRule::Backward,
        p.first == null_serial(),
        p.next_to_last == null_serial(),
        p.tenor.length > 0,
        schedule_dates(p) is Ok,
    ensures
        ({
            let d = schedule_dates(p).unwrap().0;
            let n = d.len() as int;
            &&& d[0] == p.effective
            &&& forall|k: int|
                0 <= k < n - 1 ==> tenors_away(p.termination, -k, p.tenor) == Some(
                    #[trigger] d[n - 1 - k],
                )
            &&& tenors_away(p.termination, -(n - 1), p.tenor) is Some
            &&& tenors_away(p.termination, -(n - 1), p.tenor).unwrap() <= p.effective
        }),
{
    lemma_generated(p);
    let ((dates, reg), seed) = generated(p).unwrap();
    let (st, seed0) = backward_start(p).unwrap();
    assert(seed0 == p.termination);
    assert(tenors_away(p.termination, -0, p.tenor) == Some(p.termination));
    lemma_backward_regular(p, 1, st);
    let r0 = backward_steps(p, p.termination, 1, st).unwrap();
    assert(third_wednesday_dates(p.rule, dates) == dates);
    lemma_unadjusted_business_adjusted(p, dates);
    assert(adjusted_dates(p, seed, dates) == Ok::<Seq<int>, crate::datetime::schedule_rules::ScheduleError>(dates));
    lemma_trimmed_increasing_noop(dates, reg);
    assert(schedule_dates(p).unwrap().0 == dates);
    let n = dates.len() as int;
    let m = r0.0.len() as int;
    if r0.0[0] != p.effective {
        assert(dates == seq![p.effective] + r0.0);
        assert forall|k: int| 0 <= k < n - 1 implies tenors_away(p.termination, -k, p.tenor)
            == Some(#[trigger] dates[n - 1 - k]) by {
            assert(dates[n - 1 - k] == r0.0[m - 1 - k]);
        }
    } else {
        assert(dates == r0.0);
        assert(tenors_away(p.termination, -(n - 1), p.tenor) == Some(dates[n - 1 - (n - 1)]));
    }
}

/// A backward schedule with nothing to adjust, no end-of-month rule and no stub dates holds,
/// read from its end, the termination date moved back by whole tenors (0, 1, 2, ...) for as
/// long as those fall after the effective date, then the effective date; the next whole
/// tenor back would not fall after it.
pub proof fn lemma_backward_schedule_dates(
    eval: int,
    effective: int,
    termination: int,
    tenor: Period,
    calendar: Calendar,
)
    requires
        is_valid_serial(effective),
        is_valid_serial(termination),
        effective != null_serial(),
        tenor.length > 0,
        schedule_outcome(
            eval,
            effective,
            termination,
            tenor,
            calendar,
            BusinessDayConvention::Unadjusted,
            BusinessDayConvention::Unadjusted,
            DateGenerationRule::Backward,
            false,
            null_serial(),
            null_serial(),
        ) is Ok,
    ensures
        ({
            let d = schedule_outcome(
                eval,
                effective,
                termination,
                tenor,
                calendar,
                BusinessDayConvention::Unadjusted,
                BusinessDayConvention::Unadjusted,
                DateGenerationRule::Backward,
                false,
                null_serial(),
                null_serial(),
            ).unwrap().dates;
            let n = d.len() as int;
            &&& d[0] == effective
            &&& forall|k: int|
                0 <= k < n - 1 ==> tenors_away(termination, -k, tenor) == Some(
                    #[trigger] d[n - 1 - k],
                )
            &&& tenors_away(termination, -(n - 1), tenor) is Some
            &&& tenors_away(termination, -(n - 1), tenor).unwrap() <= effective
        }),
{
    let (eff, rule_n) = validated_inputs(
        eval,
        effective,
        termination,
        tenor,
        DateGenerationRule::Backward,
        null_serial(),
        null_serial(),
    ).unwrap();
    let p = GenParams {
        calendar,
        convention: BusinessDayConvention::Unadjusted,
        termination_convention: BusinessDayConvention::Unadjusted,
        tenor,
        rule: rule_n,
        end_of_month: false,
        effective: eff,
        termination,
        first: null_serial(),
        next_to_last: null_serial(),
    };
    assert(eff == effective);
    assert(plain_params(p));
    lemma_backward_regular_dates(p);
}

/// The 20th of the month of a valid date is a valid date.
proof fn lemma_twentieth_of_month(s: int)
    requires
        is_valid_serial(s),
    ensures
        is_valid_serial(serial_of(year_of_serial(s), month_of_serial(s), 20)),
        day_of_serial(serial_of(year_of_serial(s), month_of_serial(s), 20)) == 20,
{
    lemma_serial_has_date(s);
    let t = ymd_of_serial(s);
    assert(is_valid_ymd(t.0, t.1, 20));
    lemma_serial_roundtrip(t.0, t.1, 20);
}

/// A valid 20th moved by months or years is a valid 20th.
proof fn lemma_shifted_twentieth(s: int, n: int, unit: TimeUnit)
    requires
        is_valid_serial(s),
        day_of_serial(s) == 20,
        unit == TimeUnit::Months || unit == TimeUnit::Years,
        shifted(s, n, unit) is Some,
    ensures
        is_valid_serial(shifted(s, n, unit).unwrap()),
        day_of_serial(shifted(s, n, unit).unwrap()) == 20,
{
    lemma_moved_by_months(s, n, unit);
}

/// The next 20th of a valid date is a valid 20th.
proof fn lemma_next_twentieth_day(s: int, rule: DateGenerationRule)
    requires
        is_valid_serial(s),
        next_twentieth_spec(s, rule) is Some,
    ensures
        is_valid_serial(next_twentieth_spec(s, rule).unwrap()),
        day_of_serial(next_twentieth_spec(s, rule).unwrap()) == 20,
{
    lemma_twentieth_of_month(s);
    let t = ymd_of_serial(s);
    let r0 = serial_of(t.0, t.1, 20);
    if r0 < s {
        lemma_shifted_twentieth(r0, 1, TimeUnit::Months);
    }
    let r = if r0 < s {
        shifted(r0, 1, TimeUnit::Months).unwrap()
    } else {
        r0
    };
    let m = month_of_serial(r);
    if is_imm_twentieth_rule(rule) && m % 3 != 0 {
        lemma_shifted_twentieth(r, 3 - m % 3, TimeUnit::Months);
    }
}

/// The previous 20th of a valid date is a valid 20th.
proof fn lemma_previous_twentieth_day(s: int, rule: DateGenerationRule)
    requires
        is_valid_serial(s),
        previous_twentieth_spec(s, rule) is Some,
    ensures
        is_valid_serial(previous_twentieth_spec(s, rule).unwrap()),
        day_of_serial(previous_twentieth_spec(s, rule).unwrap()) == 20,
{
    reveal(previous_twentieth_spec);
    lemma_twentieth_of_month(s);
    let t = ymd_of_serial(s);
    let r0 = serial_of(t.0, t.1, 20);
    if r0 > s {
        lemma_shifted_twentieth(r0, -1, TimeUnit::Months);
    }
    let r = if r0 > s {
        shifted(r0, -1, TimeUnit::Months).unwrap()
    } else {
        r0
    };
    let m = month_of_serial(r);
    if is_imm_twentieth_rule(rule) && m % 3 != 0 {
        lemma_shifted_twentieth(r, -(m % 3), TimeUnit::Months);
    }
}

/// Generation parameters of a 20th rule by months or years, with nothing to adjust and no
/// stub dates, from a valid effective date to a valid termination date.
pub open spec fn twentieth_params(p: GenParams) -> bool {
    &&& is_twentieth_rule(p.rule)
    &&& p.tenor.unit == TimeUnit::Months || p.tenor.unit == TimeUnit::Years
    &&& p.convention == BusinessDayConvention::Unadjusted
    &&& p.termination_convention == BusinessDayConvention::Unadjusted
    &&& !p.end_of_month
    &&& p.first == null_serial()
    &&& p.next_to_last == null_serial()
    &&& is_valid_serial(p.effective)
    &&& is_valid_serial(p.termination)
}

/// Whether the rule is one of the CDS rules that start on a 20th.
pub open spec fn is_cds_rule(rule: DateGenerationRule) -> bool {
    rule == DateGenerationRule::CDS || rule == DateGenerationRule::CDS2015
}

/// The start of a 20th rule: valid dates, 20ths after the first, the effective date first
/// (a 20th under the CDS rules), and a 20th to step from.
#[verifier::rlimit(40)]
proof fn lemma_twentieth_start(p: GenParams)
    requires
        twentieth_params(p),
        forward_start(p) is Ok,
    ensures
        ({
            let (st, seed) = forward_start(p).unwrap();
            &&& st.0.len() >= 1
            &&& valid_dates(st.0)
            &&& twentieths_after_first(st.0)
            &&& is_valid_serial(seed)
            &&& day_of_serial(seed) == 20
            &&& is_cds_rule(p.rule) ==> day_of_serial(st.0[0]) == 20
            &&& !is_cds_rule(p.rule) ==> st.0[0] == p.effective
        }),
{
    let head = forward_head(p).unwrap();
    let hd = head.0;
    if is_cds_rule(p.rule) {
        let p20 = previous_twentieth_spec(p.effective, p.rule).unwrap();
        lemma_previous_twentieth_day(p.effective, p.rule);
        let a = p.calendar.adjusted(p20, p.convention).unwrap();
        if a > p.effective {
            lemma_shifted_twentieth(p20, -3, TimeUnit::Months);
            let q = shifted(p20, -3, TimeUnit::Months).unwrap();
            assert(hd == seq![q, p20]);
        } else {
            assert(hd == seq![p20]);
        }
        assert(day_of_serial(hd.last()) == 20);
    } else {
        assert(hd == seq![p.effective]);
    }
    assert(valid_dates(hd) && twentieths_after_first(hd));
    let n0 = next_twentieth_spec(p.effective, p.rule).unwrap();
    lemma_next_twentieth_day(p.effective, p.rule);
    let n = if p.rule == DateGenerationRule::OldCDS && n0 - p.effective < 30 {
        lemma_next_twentieth_day(n0 + 1, p.rule);
        next_twentieth_spec(n0 + 1, p.rule).unwrap()
    } else {
        n0
    };
    assert(is_valid_serial(n) && day_of_serial(n) == 20);
    let (st, seed) = forward_start(p).unwrap();
    if n != p.effective {
        assert(st.0 == hd.push(n));
        assert(seed == n);
        assert forall|i: int| 0 < i < st.0.len() implies day_of_serial(#[trigger] st.0[i]) == 20 by {
            if i < hd.len() {
                assert(st.0[i] == hd[i]);
            }
        }
        assert forall|i: int| 0 <= i < st.0.len() implies is_valid_serial(#[trigger] st.0[i]) by {
            if i < hd.len() {
                assert(st.0[i] == hd[i]);
            }
        }
    } else {
        assert(st.0 == hd);
        assert(seed == hd.last());
    }
}

/// The forward steps of a 20th rule from a 20th push 20ths only.
proof fn lemma_twentieth_steps(p: GenParams, seed: int, k: int, st: GenState)
    requires
        twentieth_params(p),
        is_valid_serial(seed),
        day_of_serial(seed) == 20,
        st.0.len() >= 1,
        valid_dates(st.0),
        twentieths_after_first(st.0),
        forward_steps(p, seed, k, st) is Ok,
    ensures
        ({
            let r = forward_steps(p, seed, k, st).unwrap();
            &&& r.0.len() >= 1
            &&& r.0[0] == st.0[0]
            &&& valid_dates(r.0)
            &&& twentieths_after_first(r.0)
        }),
    decreases i32::MAX - k,
{
    let (dates, reg) = st;
    let len = p.tenor.length as int;
    let t = null_advanced(seed, k * len, p.tenor.unit, p.convention, p.end_of_month).unwrap();
    lemma_null_advanced_value(seed, k * len, p.tenor.unit);
    lemma_moved_by_months(seed, k * len, p.tenor.unit);
    if t > p.termination {
    } else {
        let apart = apart_after_adjustment(p.calendar, dates.last(), t, p.convention).unwrap();
        let next = if apart {
            (dates.push(t), reg.push(true))
        } else {
            st
        };
        assert(valid_dates(next.0) && twentieths_after_first(next.0) && next.0[0] == dates[0]) by {
            if apart {
                assert forall|i: int| 0 < i < next.0.len() implies day_of_serial(#[trigger] next.0[i]) == 20 by {
                    if i < dates.len() {
                        assert(next.0[i] == dates[i]);
                    }
                }
                assert forall|i: int| 0 <= i < next.0.len() implies is_valid_serial(#[trigger] next.0[i]) by {
                    if i < dates.len() {
                        assert(next.0[i] == dates[i]);
                    }
                }
            }
        }
        lemma_twentieth_steps(p, seed, k + 1, next);
    }
}

/// The schedule dates of a 20th rule by months or years with nothing to adjust: 20ths after
/// the first date, which is the effective date (a 20th under the CDS rules).
#[verifier::rlimit(40)]
proof fn lemma_twentieth_schedule_dates(p: GenParams)
    requires
        twentieth_params(p),
        schedule_dates(p) is Ok,
    ensures
        ({
            let d = schedule_dates(p).unwrap().0;
            &&& twentieths_after_first(d)
            &&& is_cds_rule(p.rule) ==> day_of_serial(d[0]) == 20
            &&& !is_cds_rule(p.rule) ==> d[0] == p.effective
        }),
{
    let ((dates, reg), seed) = generated(p).unwrap();
    let (st, seed0) = forward_start(p).unwrap();
    lemma_twentieth_start(p);
    lemma_twentieth_steps(p, seed0, 1, st);
    let st2 = forward_steps(p, seed0, 1, st).unwrap();
    let st3 = forward_finish(p, st2).unwrap();
    assert(dates == st3.0);
    assert(valid_dates(dates) && twentieths_after_first(dates) && dates[0] == st.0[0]) by {
        if dates != st2.0 {
            let nt = next_twentieth_spec(p.termination, p.rule).unwrap();
            lemma_next_twentieth_day(p.termination, p.rule);
            assert(dates == st2.0.push(nt));
            assert forall|i: int| 0 < i < dates.len() implies day_of_serial(#[trigger] dates[i]) == 20 by {
                if i < st2.0.len() {
                    assert(dates[i] == st2.0[i]);
                }
            }
            assert forall|i: int| 0 <= i < dates.len() implies is_valid_serial(#[trigger] dates[i]) by {
                if i < st2.0.len() {
                    assert(dates[i] == st2.0[i]);
                }
            }
        }
    }
    assert(third_wednesday_dates(p.rule, dates) == dates);
    lemma_unadjusted_business_adjusted(p, dates);
    assert(adjusted_dates(p, seed, dates) == Ok::<Seq<int>, crate::datetime::schedule_rules::ScheduleError>(dates));
    assert(schedule_dates(p) == trimmed((dates, reg)));
    assert(dates.len() >= 2);
    lemma_trimmed_keeps(dates, reg);
}

/// A schedule built by one of the 20th rules (`Twentieth`, `TwentiethIMM`, `OldCDS`, `CDS`,
/// `CDS2015`) with a tenor in months or years and nothing to adjust has every date after the
/// first on the 20th of its month; it starts at the effective date, except under the `CDS`
/// and `CDS2015` rules, where it starts on a 20th as well.
pub proof fn lemma_twentieth_schedule(
    eval: int,
    effective: int,
    termination: int,
    tenor: Period,
    calendar: Calendar,
    rule: DateGenerationRule,
    end_of_month: bool,
    first: int,
    next_to_last: int,
)
    requires
        is_twentieth_rule(rule),
        tenor.unit == TimeUnit::Months || tenor.unit == TimeUnit::Years,
        tenor.length > 0,
        is_valid_serial(effective),
        is_valid_serial(termination),
        schedule_outcome(
            eval,
            effective,
            termination,
            tenor,
            calendar,
            BusinessDayConvention::Unadjusted,
            BusinessDayConvention::Unadjusted,
            rule,
            end_of_month,
            first,
            next_to_last,
        ) is Ok,
    ensures
        ({
            let d = schedule_outcome(
                eval,
                effective,
                termination,
                tenor,
                calendar,
                BusinessDayConvention::Unadjusted,
                BusinessDayConvention::Unadjusted,
                rule,
                end_of_month,
                first,
                next_to_last,
            ).unwrap().dates;
            &&& forall|i: int| 0 < i < d.len() ==> day_of_serial(#[trigger] d[i]) == 20
            &&& is_cds_rule(rule) ==> day_of_serial(d[0]) == 20
            &&& !is_cds_rule(rule) ==> d[0] == effective
        }),
{
    let (eff, rule_n) = validated_inputs(
        eval,
        effective,
        termination,
        tenor,
        rule,
        first,
        next_to_last,
    ).unwrap();
    let first_n = if first == effective {
        null_serial()
    } else {
        first
    };
    let ntl_n = if next_to_last == termination {
        null_serial()
    } else {
        next_to_last
    };
    let eom_n = crate::datetime::schedule_rules::allows_end_of_month_spec(tenor) && end_of_month;
    let p = GenParams {
        calendar,
        convention: BusinessDayConvention::Unadjusted,
        termination_convention: BusinessDayConvention::Unadjusted,
        tenor,
        rule: rule_n,
        end_of_month: eom_n,
        effective: eff,
        termination,
        first: first_n,
        next_to_last: ntl_n,
    };
    assert(eff == effective);
    assert(rule_n == rule);
    assert(first_n == null_serial() && ntl_n == null_serial());
    assert(!eom_n) by {
        if eom_n {
            assert(generated(p) is Err);
        }
    }
    assert(twentieth_params(p));
    lemma_twentieth_schedule_dates(p);
}

/// The final clean-up keeps only dates that were strictly between the first and the last
/// strictly between them: what holds of those holds after it.
proof fn lemma_trimmed_interior(d: Seq<int>, reg: Seq<bool>, pred: spec_fn(int) -> bool)
    requires
        d.len() >= 2,
        trimmed((d, reg)) is Ok,
        forall|i: int| 0 < i < d.len() - 1 ==> pred(#[trigger] d[i]),
    ensures
        forall|i: int|
            0 < i < trimmed((d, reg)).unwrap().0.len() - 1 ==> pred(
                #[trigger] trimmed((d, reg)).unwrap().0[i],
            ),
{
    let n = d.len() as int;
    let l = without_late_date((d, reg));
    let ld = l.0;
    let m = ld.len() as int;
    assert forall|i: int| 0 < i < m - 1 implies pred(#[trigger] ld[i]) by {
        if d[n - 2] >= d[n - 1] {
            assert(ld =~= d.take(n - 2).push(d[n - 1]));
        }
        assert(ld[i] == d[i]);
    }
    let ed = without_early_date(l).unwrap().0;
    assert forall|i: int| 0 < i < ed.len() - 1 implies pred(#[trigger] ed[i]) by {
        if m >= 2 && ld[1] <= ld[0] {
            assert(ed =~= seq![ld[0]] + ld.subrange(2, m));
            assert(ed[i] == ld[i + 1]);
        }
    }
}

/// Whether two dates fall in the same month of the same year.
pub open spec fn same_month(a: int, b: int) -> bool {
    year_of_serial(a) == year_of_serial(b) && month_of_serial(a) == month_of_serial(b)
}

/// A date that is an IMM date in the month reached from `s` by a whole number (at least one)
/// of tenors.
pub open spec fn imm_in_tenor_month(x: int, s: int, tenor: Period) -> bool {
    &&& is_imm_date_spec(x, false)
    &&& exists|j: int|
        1 <= j && #[trigger] tenors_away(s, j, tenor) is Some && same_month(
            x,
            tenors_away(s, j, tenor).unwrap(),
        )
}

#[verifier::rlimit(40)]
proof fn lemma_third_wednesday_regular_generated(p: GenParams)
    requires
        plain_params(p),
        p.rule == DateGenerationRule::ThirdWednesday,
        p.first == null_serial(),
        p.next_to_last == null_serial(),
        p.tenor.length > 0,
        generated(p) is Ok,
    ensures
        ({
            let dates = generated(p).unwrap().0.0;
            &&& dates.len() >= 1
            &&& valid_dates(dates)
            &&& forall|j: int|
                0 < j < dates.len() - 1 ==> tenors_away(p.effective, j, p.tenor) == Some(
                    #[trigger] dates[j],
                )
        }),
{
    let ((dates, reg), seed) = generated(p).unwrap();
    let head = forward_head(p).unwrap();
    assert(head == (seq![p.effective], Seq::<bool>::empty()));
    let (st, seed0) = forward_start(p).unwrap();
    assert(seed0 == p.effective);
    assert(tenors_away(p.effective, 0, p.tenor) == Some(p.effective));
    lemma_forward_regular(p, 1, st);
    let r0 = forward_steps(p, p.effective, 1, st).unwrap();
    let n = dates.len() as int;
    if r0.0.last() != p.termination {
        assert(dates == r0.0.push(p.termination));
    } else {
        assert(dates == r0.0);
    }
    assert forall|j: int| 0 <= j < n implies is_valid_serial(#[trigger] dates[j]) by {
        if j < r0.0.len() {
            assert(dates[j] == r0.0[j]);
            assert(tenors_away(p.effective, j, p.tenor) == Some(r0.0[j]));
            lemma_null_advanced_value(p.effective, j * p.tenor.length, p.tenor.unit);
        }
    }
    assert forall|j: int| 0 < j < n - 1 implies tenors_away(p.effective, j, p.tenor) == Some(
        #[trigger] dates[j],
    ) by {
        assert(dates[j] == r0.0[j]);
    }
}

proof fn lemma_third_wednesday_tenor_months(p: GenParams, dates: Seq<int>)
    requires
        p.rule == DateGenerationRule::ThirdWednesday,
        valid_dates(dates),
        forall|j: int|
            0 < j < dates.len() - 1 ==> tenors_away(p.effective, j, p.tenor) == Some(
                #[trigger] dates[j],
            ),
    ensures
        ({
            let tw = third_wednesday_dates(p.rule, dates);
            &&& tw.len() == dates.len()
            &&& valid_dates(tw)
            &&& forall|i: int| 0 < i < tw.len() - 1 ==> imm_in_tenor_month(#[trigger] tw[i], p.effective, p.tenor)
        }),
{
    let tw = third_wednesday_dates(p.rule, dates);
    let n = dates.len() as int;
    assert forall|i: int| 0 <= i < n implies is_valid_serial(#[trigger] tw[i]) by {
        lemma_third_wednesday_of(dates[i]);
    }
    assert forall|i: int| 0 < i < n - 1 implies imm_in_tenor_month(#[trigger] tw[i], p.effective, p.tenor) by {
        lemma_third_wednesday_of(dates[i]);
        assert(tenors_away(p.effective, i, p.tenor) == Some(dates[i]));
        assert(same_month(tw[i], tenors_away(p.effective, i, p.tenor).unwrap()));
    }
}

#[verifier::rlimit(40)]
proof fn lemma_third_wednesday_regular_dates(p: GenParams)
    requires
        plain_params(p),
        p.rule == DateGenerationRule::ThirdWednesday,
        p.first == null_serial(),
        p.next_to_last == null_serial(),
        p.tenor.length > 0,
        schedule_dates(p) is Ok,
    ensures
        ({
            let d = schedule_dates(p).unwrap().0;
            forall|i: int| 0 < i < d.len() - 1 ==> imm_in_tenor_month(#[trigger] d[i], p.effective, p.tenor)
        }),
{
    lemma_third_wednesday_regular_generated(p);
    let ((dates, reg), seed) = generated(p).unwrap();
    lemma_third_wednesday_tenor_months(p, dates);
    let tw = third_wednesday_dates(p.rule, dates);
    let pred = |x: int| imm_in_tenor_month(x, p.effective, p.tenor);
    assert forall|i: int| 0 < i < tw.len() - 1 implies pred(#[trigger] tw[i]) by {
        assert(imm_in_tenor_month(tw[i], p.effective, p.tenor));
    }
    lemma_unadjusted_business_adjusted(p, tw);
    assert(adjusted_dates(p, seed, dates) == Ok::<Seq<int>, crate::datetime::schedule_rules::ScheduleError>(tw));
    assert(schedule_dates(p) == trimmed((tw, reg)));
    assert(tw.len() >= 2) by {
        if tw.len() < 2 {
            assert(trimmed((tw, reg)) is Err);
        }
    }
    lemma_trimmed_interior(tw, reg, pred);
    let d = schedule_dates(p).unwrap().0;
    assert forall|i: int| 0 < i < d.len() - 1 implies imm_in_tenor_month(#[trigger] d[i], p.effective, p.tenor) by {
        assert(pred(d[i]));
    }
}

/// A schedule built by the `ThirdWednesday` rule with nothing to adjust and no stub dates
/// moves each date strictly between the first and the last to the third Wednesday of the
/// month it was generated in: a month reached from the effective date by a whole number of
/// tenors.
pub proof fn lemma_third_wednesday_months(
    eval: int,
    effective: int,
    termination: int,
    tenor: Period,
    calendar: Calendar,
)
    requires
        is_valid_serial(effective),
        is_valid_serial(termination),
        tenor.length > 0,
        schedule_outcome(
            eval,
            effective,
            termination,
            tenor,
            calendar,
            BusinessDayConvention::Unadjusted,
            BusinessDayConvention::Unadjusted,
            DateGenerationRule::ThirdWednesday,
            false,
            null_serial(),
            null_serial(),
        ) is Ok,
    ensures
        ({
            let d = schedule_outcome(
                eval,
                effective,
                termination,
                tenor,
                calendar,
                BusinessDayConvention::Unadjusted,
                BusinessDayConvention::Unadjusted,
                DateGenerationRule::ThirdWednesday,
                false,
                null_serial(),
                null_serial(),
            ).unwrap().dates;
            forall|i: int| 0 < i < d.len() - 1 ==> imm_in_tenor_month(#[trigger] d[i], effective, tenor)
        }),
{
    let (eff, rule_n) = validated_inputs(
        eval,
        effective,
        termination,
        tenor,
        DateGenerationRule::ThirdWednesday,
        null_serial(),
        null_serial(),
    ).unwrap();
    let p = GenParams {
        calendar,
        convention: BusinessDayConvention::Unadjusted,
        termination_convention: BusinessDayConvention::Unadjusted,
        tenor,
        rule: rule_n,
        end_of_month: false,
        effective: eff,
        termination,
        first: null_serial(),
        next_to_last: null_serial(),
    };
    assert(eff == effective);
    assert(plain_params(p));
    lemma_third_wednesday_regular_dates(p);
}

} // verus!
