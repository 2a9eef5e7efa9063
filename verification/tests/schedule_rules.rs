use rust_quantlib::context::pricing_context::PricingContext;
use rust_quantlib::datetime::businessdayconvention::BusinessDayConvention;
use rust_quantlib::datetime::calendar::Calendar;
use rust_quantlib::datetime::date::Date;
use rust_quantlib::datetime::dategenerationrule::DateGenerationRule;
use rust_quantlib::datetime::frequency::Frequency;
use rust_quantlib::datetime::holidays::target::Target;
use rust_quantlib::datetime::months::Month;
use rust_quantlib::datetime::period::Period;
use rust_quantlib::datetime::schedule::{previous_twentieth, Schedule, ScheduleBuilder};
use rust_quantlib::datetime::schedule_rules::ScheduleError;
use rust_quantlib::datetime::timeunit::TimeUnit;

fn context(d: Date) -> PricingContext {
    PricingContext::new(d)
}

#[allow(clippy::too_many_arguments)]
fn attempt(
    eval: Date,
    effective: Date,
    termination: Date,
    tenor: Period,
    calendar: Calendar,
    rule: DateGenerationRule,
    eom: bool,
    first: Date,
    next_to_last: Date,
) -> Result<Schedule, ScheduleError> {
    Schedule::try_new(
        context(eval),
        effective,
        termination,
        tenor,
        calendar,
        BusinessDayConvention::Following,
        BusinessDayConvention::Following,
        rule,
        eom,
        first,
        next_to_last,
    )
}

fn d(day: u32, m: Month, y: i32) -> Date {
    Date::new(day, m, y)
}

#[test]
fn schedule_errors_name_the_failed_check() {
    let six_months = Period::new(6, TimeUnit::Months);
    let eval = d(1, Month::January, 2020);
    let null = Date::default();
    let err = |r: Result<Schedule, ScheduleError>| r.err().unwrap();
    assert_eq!(
        err(attempt(eval, d(1, Month::January, 2020), null, six_months, Target::new(),
            DateGenerationRule::Forward, false, null, null)),
        ScheduleError::NullTerminationDate
    );
    assert_eq!(
        err(attempt(eval, d(1, Month::January, 2021), d(1, Month::January, 2020), six_months,
            Target::new(), DateGenerationRule::Forward, false, null, null)),
        ScheduleError::EffectiveDateNotBeforeTermination
    );
    assert_eq!(
        err(attempt(eval, null, d(1, Month::January, 2021), six_months, Target::new(),
            DateGenerationRule::Forward, false, null, null)),
        ScheduleError::NullEffectiveDate
    );
    assert_eq!(
        err(attempt(d(1, Month::January, 2022), null, d(1, Month::January, 2021), six_months,
            Target::new(), DateGenerationRule::Backward, false, null, null)),
        ScheduleError::EvaluationDateNotBeforeTermination
    );
    assert_eq!(
        err(attempt(eval, d(1, Month::January, 2020), d(1, Month::January, 2021),
            Period::new(-6, TimeUnit::Months), Target::new(), DateGenerationRule::Forward, false,
            null, null)),
        ScheduleError::NegativeTenor
    );
    assert_eq!(
        err(attempt(eval, d(1, Month::January, 2020), d(1, Month::January, 2021), six_months,
            Target::new(), DateGenerationRule::Forward, false, d(1, Month::March, 2021), null)),
        ScheduleError::FirstDateOutOfRange
    );
    assert_eq!(
        err(attempt(eval, d(1, Month::January, 2020), d(1, Month::January, 2021),
            Period::new(0, TimeUnit::Months), Target::new(), DateGenerationRule::Forward, false,
            d(1, Month::March, 2020), null)),
        ScheduleError::FirstDateIncompatible
    );
    assert_eq!(
        err(attempt(eval, d(1, Month::January, 2020), d(1, Month::January, 2021), six_months,
            Target::new(), DateGenerationRule::ThirdWednesday, false, d(1, Month::March, 2020),
            null)),
        ScheduleError::FirstDateNotImm
    );
    assert_eq!(
        err(attempt(eval, d(1, Month::January, 2020), d(1, Month::January, 2021), six_months,
            Target::new(), DateGenerationRule::Backward, false, null,
            d(1, Month::March, 2019))),
        ScheduleError::NextToLastDateOutOfRange
    );
    assert_eq!(
        err(attempt(eval, d(1, Month::January, 2020), d(1, Month::January, 2021), six_months,
            Target::new(), DateGenerationRule::Twentieth, true, null, null)),
        ScheduleError::EndOfMonthIncompatible
    );
    assert_eq!(
        err(attempt(eval, d(5, Month::January, 2199), d(25, Month::December, 2199),
            Period::new(1, TimeUnit::Months), Target::new(), DateGenerationRule::Twentieth, false,
            null, null)),
        ScheduleError::DateOutOfRange
    );
    assert_eq!(
        err(attempt(eval, d(7, Month::January, 2023), d(9, Month::January, 2023),
            Period::new(1, TimeUnit::Months), Target::new(), DateGenerationRule::Backward, false,
            null, null)),
        ScheduleError::Degenerate
    );
}

#[test]
fn zero_rule_keeps_the_two_ends() {
    let s = attempt(
        d(1, Month::January, 2020),
        d(4, Month::January, 2020),
        d(4, Month::July, 2020),
        Period::new(0, TimeUnit::Months),
        Target::new(),
        DateGenerationRule::Forward,
        false,
        Date::default(),
        Date::default(),
    )
    .unwrap();
    // January 4th, 2020 is a Saturday: following moves it to Monday the 6th.
    assert_eq!(s.size(), 2);
    assert_eq!(*s.start_date(), d(6, Month::January, 2020));
    assert_eq!(*s.end_date(), d(6, Month::July, 2020));
    assert_eq!(s.rule(), DateGenerationRule::Zero);
    assert_eq!(s.tenor(), Period::new(0, TimeUnit::Years));
    assert!(s.is_regular(1));
    assert!(s.has_is_regular());
    assert!(!s.empty());
}

#[test]
fn regular_flags_and_lookups() {
    let s = ScheduleBuilder::new(
        context(d(15, Month::March, 2020)),
        d(15, Month::January, 2020),
        d(15, Month::January, 2021),
        Period::from_frequency(Frequency::Quarterly).unwrap(),
        Target::new(),
    )
    .with_convention(BusinessDayConvention::Unadjusted)
    .forwards()
    .build();
    assert_eq!(s.size(), 5);
    assert_eq!(s.dates().len(), 5);
    for i in 1..s.size() {
        assert!(s.is_regular(i));
    }
    // lookups from the null date start at the evaluation date
    assert_eq!(s.next_date(&Date::default()), d(15, Month::April, 2020));
    assert_eq!(s.previous_date(&Date::default()), d(15, Month::January, 2020));
    assert_eq!(s.next_date(&d(15, Month::April, 2020)), d(15, Month::April, 2020));
    assert_eq!(s.previous_date(&d(15, Month::April, 2020)), d(15, Month::January, 2020));
    assert_eq!(s.next_date(&d(16, Month::January, 2021)), Date::default());
    assert_eq!(s.previous_date(&d(1, Month::January, 2020)), Date::default());
}

#[test]
fn truncation_at_a_schedule_date_keeps_its_regularity() {
    let s = ScheduleBuilder::new(
        context(d(15, Month::March, 2020)),
        d(15, Month::January, 2020),
        d(15, Month::January, 2021),
        Period::new(3, TimeUnit::Months),
        Target::new(),
    )
    .with_convention(BusinessDayConvention::Unadjusted)
    .forwards()
    .build();
    let a = s.after(&d(15, Month::July, 2020));
    assert_eq!(a.size(), 3);
    assert_eq!(*a.start_date(), d(15, Month::July, 2020));
    assert!(a.is_regular(1));
    let b = s.until(&d(1, Month::August, 2020));
    assert_eq!(b.size(), 4);
    assert_eq!(*b.end_date(), d(1, Month::August, 2020));
    assert!(!b.is_regular(3));
    assert_eq!(
        b.termination_date_business_day_convention(),
        BusinessDayConvention::Unadjusted
    );
    // a truncation date before the first date leaves the schedule as it is
    let c = s.after(&d(1, Month::January, 2020));
    assert_eq!(c.size(), s.size());
}

#[test]
fn previous_twentieth_follows_the_imm_months() {
    let dt = d(19, Month::September, 2015);
    assert_eq!(
        previous_twentieth(&dt, DateGenerationRule::Twentieth),
        d(20, Month::August, 2015)
    );
    assert_eq!(previous_twentieth(&dt, DateGenerationRule::CDS), d(20, Month::June, 2015));
    assert_eq!(
        previous_twentieth(&d(20, Month::September, 2015), DateGenerationRule::CDS2015),
        d(20, Month::September, 2015)
    );
}

#[test]
fn frequencies_give_their_periods() {
    assert_eq!(
        Period::from_frequency(Frequency::Semiannual),
        Some(Period::new(6, TimeUnit::Months))
    );
    assert_eq!(
        Period::from_frequency(Frequency::Biweekly),
        Some(Period::new(2, TimeUnit::Weeks))
    );
    assert_eq!(
        Period::from_frequency(Frequency::Annual),
        Some(Period::new(1, TimeUnit::Years))
    );
    assert_eq!(
        Period::from_frequency(Frequency::Once),
        Some(Period::new(0, TimeUnit::Years))
    );
    assert_eq!(Period::from_frequency(Frequency::OtherFrequency), None);
}

// With unadjusted dates and no end-of-month rule the calendar plays no part, so these
// schedules can be built on the TARGET calendar.

#[test]
fn schedule_starts_at_the_effective_date_with_unadjusted_dates() {
    let s = ScheduleBuilder::new(
        context(d(1, Month::December, 2022)),
        d(10, Month::January, 2017),
        d(28, Month::February, 2026),
        Period::from_frequency(Frequency::Semiannual).unwrap(),
        Target::new(),
    )
    .with_first_date(d(31, Month::August, 2017))
    .with_convention(BusinessDayConvention::Unadjusted)
    .backwards()
    .build();
    assert_eq!(*s.start_date(), d(10, Month::January, 2017));

    let s = ScheduleBuilder::new(
        context(d(1, Month::December, 2022)),
        d(31, Month::August, 2017),
        d(28, Month::February, 2026),
        Period::from_frequency(Frequency::Semiannual).unwrap(),
        Target::new(),
    )
    .with_convention(BusinessDayConvention::Unadjusted)
    .backwards()
    .build();
    assert_eq!(*s.start_date(), d(31, Month::August, 2017));
}

#[test]
fn first_date_on_maturity_with_unadjusted_dates() {
    let expected = vec![d(20, Month::September, 2016), d(20, Month::December, 2016)];
    for forward in [false, true] {
        let b = ScheduleBuilder::new(
            context(d(1, Month::December, 2022)),
            d(20, Month::September, 2016),
            d(20, Month::December, 2016),
            Period::from_frequency(Frequency::Quarterly).unwrap(),
            Target::new(),
        )
        .with_first_date(d(20, Month::December, 2016))
        .with_convention(BusinessDayConvention::Unadjusted);
        let s = if forward { b.forwards() } else { b.backwards() }.build();
        assert_eq!(s.dates(), expected);
    }
}

#[test]
fn next_to_last_date_on_start_with_unadjusted_dates() {
    let expected = vec![d(20, Month::September, 2016), d(20, Month::December, 2016)];
    for forward in [false, true] {
        let b = ScheduleBuilder::new(
            context(d(1, Month::December, 2022)),
            d(20, Month::September, 2016),
            d(20, Month::December, 2016),
            Period::from_frequency(Frequency::Quarterly).unwrap(),
            Target::new(),
        )
        .with_next_to_last_date(d(20, Month::September, 2016))
        .with_convention(BusinessDayConvention::Unadjusted);
        let s = if forward { b.forwards() } else { b.backwards() }.build();
        assert_eq!(s.dates(), expected);
    }
}

#[test]
fn backward_dates_keep_the_unadjusted_first_date() {
    let s = ScheduleBuilder::new(
        context(d(1, Month::December, 2022)),
        d(22, Month::August, 1996),
        d(31, Month::August, 1997),
        Period::new(6, TimeUnit::Months),
        Target::new(),
    )
    .with_convention(BusinessDayConvention::Unadjusted)
    .backwards()
    .with_end_of_month(true)
    .build();
    let expected = vec![
        d(22, Month::August, 1996),
        d(31, Month::August, 1996),
        d(28, Month::February, 1997),
        d(31, Month::August, 1997),
    ];
    assert_eq!(s.dates(), expected);
}

#[test]
fn builder_rule_defaults_to_backward() {
    let b = || {
        ScheduleBuilder::new(
            context(d(1, Month::December, 2022)),
            d(15, Month::January, 2020),
            d(15, Month::May, 2020),
            Period::new(3, TimeUnit::Months),
            Target::new(),
        )
        .with_convention(BusinessDayConvention::Unadjusted)
    };
    let backward = b().build();
    let explicit = b().with_rule(DateGenerationRule::Backward).build();
    assert_eq!(backward.dates(), explicit.dates());
    assert_eq!(
        backward.dates(),
        vec![d(15, Month::January, 2020), d(15, Month::February, 2020), d(15, Month::May, 2020)]
    );
    assert!(!backward.is_regular(1));
    assert!(backward.is_regular(2));
    let forward = b().with_rule(DateGenerationRule::Forward).build();
    assert_eq!(
        forward.dates(),
        vec![d(15, Month::January, 2020), d(15, Month::April, 2020), d(15, Month::May, 2020)]
    );
    assert!(!forward.is_regular(2));
}

fn plain_schedule(rule: DateGenerationRule, first: Date, next_to_last: Date) -> Schedule {
    Schedule::try_new(
        context(d(1, Month::December, 2022)),
        d(10, Month::January, 2023),
        d(31, Month::January, 2025),
        Period::new(3, TimeUnit::Months),
        Target::new(),
        BusinessDayConvention::Unadjusted,
        BusinessDayConvention::Unadjusted,
        rule,
        false,
        first,
        next_to_last,
    )
    .unwrap()
}

#[test]
fn unadjusted_schedules_are_increasing_from_effective_to_termination() {
    let null = Date::default();
    for rule in [DateGenerationRule::Forward, DateGenerationRule::Backward] {
        for (first, ntl) in [
            (null, null),
            (d(28, Month::February, 2023), null),
            (null, d(15, Month::October, 2024)),
            (d(28, Month::February, 2023), d(15, Month::October, 2024)),
        ] {
            let s = plain_schedule(rule, first, ntl);
            let dates = s.dates();
            assert!(dates.windows(2).all(|w| w[0] < w[1]));
            assert_eq!(dates[0], d(10, Month::January, 2023));
            assert_eq!(*dates.last().unwrap(), d(31, Month::January, 2025));
            // the next date is the earliest date not before the reference date
            let r = d(1, Month::May, 2023);
            let next = s.next_date(&r);
            assert!(next >= r);
            assert!(dates.iter().all(|x| *x < r || *x >= next));
        }
    }
}

#[test]
fn a_first_date_after_the_next_to_last_date_breaks_the_order() {
    let s = plain_schedule(
        DateGenerationRule::Forward,
        d(10, Month::September, 2024),
        d(10, Month::March, 2023),
    );
    let dates = s.dates();
    assert_eq!(
        dates,
        vec![
            d(10, Month::January, 2023),
            d(10, Month::September, 2024),
            d(10, Month::March, 2023),
            d(31, Month::January, 2025),
        ]
    );
}

#[test]
fn adjusted_schedules_stay_increasing_over_holidays() {
    for convention in [BusinessDayConvention::Following, BusinessDayConvention::Preceding] {
        for termination_convention in [BusinessDayConvention::Unadjusted, convention] {
            for rule in [DateGenerationRule::Forward, DateGenerationRule::Backward] {
                let s = Schedule::try_new(
                    context(d(1, Month::December, 2022)),
                    d(17, Month::December, 2022),
                    d(8, Month::January, 2023),
                    Period::new(1, TimeUnit::Days),
                    Target::new(),
                    convention,
                    termination_convention,
                    rule,
                    false,
                    Date::default(),
                    Date::default(),
                )
                .unwrap();
                let dates = s.dates();
                assert!(dates.len() >= 2);
                assert!(dates.windows(2).all(|w| w[0] < w[1]));
            }
        }
    }
}

#[test]
fn third_wednesday_rule_with_a_weekly_tenor_repeats_dates() {
    let s = Schedule::try_new(
        context(d(1, Month::December, 2022)),
        d(4, Month::January, 2023),
        d(29, Month::March, 2023),
        Period::new(1, TimeUnit::Weeks),
        Target::new(),
        BusinessDayConvention::Unadjusted,
        BusinessDayConvention::Unadjusted,
        DateGenerationRule::ThirdWednesday,
        false,
        Date::default(),
        Date::default(),
    )
    .unwrap();
    let dates = s.dates();
    assert_eq!(dates[1], d(18, Month::January, 2023));
    assert_eq!(dates[2], d(18, Month::January, 2023));
}

#[test]
fn builder_builds_what_schedule_new_builds() {
    let ctx = context(d(1, Month::December, 2022));
    let built = ScheduleBuilder::new(
        ctx,
        d(10, Month::January, 2023),
        d(31, Month::January, 2025),
        Period::new(3, TimeUnit::Months),
        Target::new(),
    )
    .with_first_date(d(28, Month::February, 2023))
    .build();
    let direct = Schedule::new(
        ctx,
        d(10, Month::January, 2023),
        d(31, Month::January, 2025),
        Period::new(3, TimeUnit::Months),
        Target::new(),
        BusinessDayConvention::Following,
        BusinessDayConvention::Following,
        DateGenerationRule::Backward,
        false,
        d(28, Month::February, 2023),
        Date::default(),
    );
    assert_eq!(built.dates(), direct.dates());
    for i in 1..built.size() {
        assert_eq!(built.is_regular(i), direct.is_regular(i));
    }
}

#[test]
fn end_of_month_with_a_next_to_last_date_in_a_generated_month_repeats_a_date() {
    let s = Schedule::try_new(
        context(d(1, Month::December, 2022)),
        d(28, Month::April, 2023),
        d(15, Month::September, 2023),
        Period::new(1, TimeUnit::Months),
        Target::new(),
        BusinessDayConvention::Unadjusted,
        BusinessDayConvention::Unadjusted,
        DateGenerationRule::Forward,
        true,
        Date::default(),
        d(30, Month::July, 2023),
    )
    .unwrap();
    let dates = s.dates();
    assert_eq!(dates[3], d(31, Month::July, 2023));
    assert_eq!(dates[4], d(31, Month::July, 2023));
}
