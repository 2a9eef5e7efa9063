use rust_quantlib::context::pricing_context::PricingContext;
use rust_quantlib::datetime::businessdayconvention::BusinessDayConvention;
use rust_quantlib::datetime::date::Date;
use rust_quantlib::datetime::frequency::Frequency;
use rust_quantlib::datetime::holidays::japan::Japan;
use rust_quantlib::datetime::holidays::target::Target;
use rust_quantlib::datetime::months::Month;
use rust_quantlib::datetime::period::Period;
use rust_quantlib::datetime::schedule::{Schedule, ScheduleBuilder};
use rust_quantlib::datetime::timeunit::TimeUnit;

#[test]
fn test_next_date() {
    let s = ScheduleBuilder::new(
        pricing_context(),
        Date::new(1, Month::December, 2022),
        Date::new(31, Month::December, 2023),
        Period::new(2, TimeUnit::Weeks),
        Target::new(),
    )
    .with_convention(BusinessDayConvention::Following)
    .forwards()
    .build();
    assert_eq!(s.size(), 30);
    assert_eq!(s.start_date(), &Date::new(1, Month::December, 2022));
    assert_eq!(s.end_date(), &Date::new(2, Month::January, 2024));
    let next_date = s.next_date(&Date::new(1, Month::December, 2022));
    // Two weeks from 2022-12-01 is 2022-12-15
    assert_eq!(next_date, Date::new(1, Month::December, 2022));
}

#[test]
fn test_previous_date() {
    let s = ScheduleBuilder::new(
        pricing_context(),
        Date::new(1, Month::December, 2022),
        Date::new(31, Month::December, 2023),
        Period::new(2, TimeUnit::Weeks),
        Target::new(),
    )
    .with_convention(BusinessDayConvention::Following)
    .forwards()
    .build();
    assert_eq!(s.size(), 30);
    let previous_date = s.previous_date(&Date::new(16, Month::December, 2022));
    // The date in the schedule before 2022-12-16 is 2022-12-15
    assert_eq!(previous_date, Date::new(15, Month::December, 2022));
}

#[test]
fn test_after() {
    let s = ScheduleBuilder::new(
        pricing_context(),
        Date::new(1, Month::December, 2022),
        Date::new(31, Month::December, 2023),
        Period::new(2, TimeUnit::Weeks),
        Target::new(),
    )
    .with_convention(BusinessDayConvention::Following)
    .forwards()
    .build();
    assert_eq!(s.size(), 30);

    assert_eq!(s.start_date(), &Date::new(1, Month::December, 2022));
    assert_eq!(s.end_date(), &Date::new(2, Month::January, 2024));

    // Truncate the schedule
    let t = s.after(&Date::new(30, Month::November, 2023));
    assert_eq!(t.start_date(), &Date::new(30, Month::November, 2023));
    assert_eq!(t.size(), 4);
}

#[test]
fn test_until() {
    let s = ScheduleBuilder::new(
        pricing_context(),
        Date::new(1, Month::December, 2022),
        Date::new(31, Month::December, 2023),
        Period::new(2, TimeUnit::Weeks),
        Target::new(),
    )
    .with_convention(BusinessDayConvention::Following)
    .forwards()
    .build();
    assert_eq!(s.size(), 30);

    assert_eq!(s.start_date(), &Date::new(1, Month::December, 2022));
    assert_eq!(s.end_date(), &Date::new(2, Month::January, 2024));

    // Truncate the schedule
    let t = s.until(&Date::new(30, Month::November, 2023));
    assert_eq!(t.end_date(), &Date::new(30, Month::November, 2023));
    assert_eq!(t.size(), 27);
}

#[test]
fn test_daily_schedule() {
    let start_date = Date::new(17, Month::January, 2012);
    let s = ScheduleBuilder::new(
        pricing_context(),
        start_date,
        start_date.add_days(7),
        Period::from_frequency(Frequency::Daily).unwrap(),
        Target::new(),
    )
    .with_convention(BusinessDayConvention::Preceding)
    .build();

    let expected = vec![
        Date::new(17, Month::January, 2012),
        Date::new(18, Month::January, 2012),
        Date::new(19, Month::January, 2012),
        Date::new(20, Month::January, 2012),
        Date::new(23, Month::January, 2012),
        Date::new(24, Month::January, 2012),
    ];

    check_dates(&s, &expected);
}

#[test]
fn test_end_date_with_eom_adjustment() {
    let s = ScheduleBuilder::new(
        pricing_context(),
        Date::new(30, Month::September, 2009),
        Date::new(15, Month::June, 2012),
        Period::new(6, TimeUnit::Months),
        Japan::new(),
    )
    .with_convention(BusinessDayConvention::Following)
    .forwards()
    .with_end_of_month(true)
    .build();

    let mut expected = vec![
        Date::new(30, Month::September, 2009),
        Date::new(31, Month::March, 2010),
        Date::new(30, Month::September, 2010),
        Date::new(31, Month::March, 2011),
        Date::new(30, Month::September, 2011),
        Date::new(30, Month::March, 2012),
        Date::new(29, Month::June, 2012),
    ];
    check_dates(&s, &expected);

    // now with unadjusted termination date...
    let s = ScheduleBuilder::new(
        pricing_context(),
        Date::new(30, Month::September, 2009),
        Date::new(15, Month::June, 2012),
        Period::new(6, TimeUnit::Months),
        Japan::new(),
    )
    .with_convention(BusinessDayConvention::Following)
    .with_termination_convention(BusinessDayConvention::Unadjusted)
    .forwards()
    .with_end_of_month(true)
    .build();
    // ...which should leave it alone.
    expected[6] = Date::new(15, Month::June, 2012);
    check_dates(&s, &expected);
}

#[test]
fn test_dates_past_end_date_with_eom_adjustment() {
    let s = ScheduleBuilder::new(
        pricing_context(),
        Date::new(28, Month::March, 2013),
        Date::new(30, Month::March, 2015),
        Period::new(1, TimeUnit::Years),
        Target::new(),
    )
    .with_convention(BusinessDayConvention::Unadjusted)
    .forwards()
    .with_end_of_month(true)
    .build();

    let expected = vec![
        Date::new(31, Month::March, 2013),
        Date::new(31, Month::March, 2014),
        // Month::March 31st 2015, coming from the EOM adjustment of Month::March 28th,
        // should be discarded as past the end date.
        Date::new(30, Month::March, 2015),
    ];
    check_dates(&s, &expected);

    // also, the last period should not be regular.
    assert!(!s.is_regular(2), "last period should not be regular")
}

#[test]
fn test_dates_same_as_end_date_with_eom_adjustment() {
    let s = ScheduleBuilder::new(
        pricing_context(),
        Date::new(28, Month::March, 2013),
        Date::new(31, Month::March, 2015),
        Period::new(1, TimeUnit::Years),
        Target::new(),
    )
    .with_convention(BusinessDayConvention::Unadjusted)
    .forwards()
    .with_end_of_month(true)
    .build();

    let expected = vec![
        Date::new(31, Month::March, 2013),
        Date::new(31, Month::March, 2014),
        // Month::March 31st 2015, coming from the EOM adjustment of Month::March 28th,
        Date::new(31, Month::March, 2015),
    ];
    check_dates(&s, &expected);

    // also, the last period should be regular.
    assert!(s.is_regular(2), "last period should be regular")
}

#[test]
fn test_four_weeks_tenor() {
    let s = ScheduleBuilder::new(
        pricing_context(),
        Date::new(13, Month::January, 2016),
        Date::new(4, Month::May, 2016),
        Period::new(4, TimeUnit::Weeks),
        Target::new(),
    )
    .with_convention(BusinessDayConvention::Following)
    .forwards()
    .build();
    assert_eq!(s.size(), 5);
}

#[test]
fn test_short_eom_schedule() {
    let s = ScheduleBuilder::new(
        pricing_context(),
        Date::new(21, Month::February, 2019),
        Date::new(28, Month::February, 2019),
        Period::new(1, TimeUnit::Years),
        Target::new(),
    )
    .with_convention(BusinessDayConvention::ModifiedFollowing)
    .backwards()
    .with_end_of_month(true)
    .build();

    assert_eq!(s.size(), 2);
    assert_eq!(s.start_date(), &Date::new(21, Month::February, 2019));
    assert_eq!(s.end_date(), &Date::new(28, Month::February, 2019));
}

#[test]
fn test_truncation() {
    let s = ScheduleBuilder::new(
        pricing_context(),
        Date::new(30, Month::September, 2009),
        Date::new(15, Month::June, 2020),
        Period::new(6, TimeUnit::Months),
        Japan::new(),
    )
    .with_convention(BusinessDayConvention::Following)
    .with_termination_convention(BusinessDayConvention::Following)
    .forwards()
    .with_end_of_month(true)
    .build();

    // Until
    let t = s.until(&Date::new(1, Month::January, 2014));
    let expected = vec![
        Date::new(30, Month::September, 2009),
        Date::new(31, Month::March, 2010),
        Date::new(30, Month::September, 2010),
        Date::new(31, Month::March, 2011),
        Date::new(30, Month::September, 2011),
        Date::new(30, Month::March, 2012),
        Date::new(28, Month::September, 2012),
        Date::new(29, Month::March, 2013),
        Date::new(30, Month::September, 2013),
        Date::new(1, Month::January, 2014),
    ];
    check_dates(&t, &expected);
    let idx = t.size() - 2;
    assert!(
        !t.is_regular(idx + 1),
        "expected is_regular[{}] to be false",
        idx
    );

    // Until, with truncation date falling on a schedule date
    let t = s.until(&Date::new(30, Month::September, 2013));
    let expected = vec![
        Date::new(30, Month::September, 2009),
        Date::new(31, Month::March, 2010),
        Date::new(30, Month::September, 2010),
        Date::new(31, Month::March, 2011),
        Date::new(30, Month::September, 2011),
        Date::new(30, Month::March, 2012),
        Date::new(28, Month::September, 2012),
        Date::new(29, Month::March, 2013),
        Date::new(30, Month::September, 2013),
    ];
    check_dates(&t, &expected);
    let idx = t.size() - 2;
    assert!(t.is_regular(idx + 1), "expected is_regular[{}] to be true", idx);

    // After
    let t = s.after(&Date::new(1, Month::January, 2014));
    let expected = vec![
        Date::new(1, Month::January, 2014),
        Date::new(31, Month::March, 2014),
        Date::new(30, Month::September, 2014),
        Date::new(31, Month::March, 2015),
        Date::new(30, Month::September, 2015),
        Date::new(31, Month::March, 2016),
        Date::new(30, Month::September, 2016),
        Date::new(31, Month::March, 2017),
        Date::new(29, Month::September, 2017),
        Date::new(30, Month::March, 2018),
        Date::new(28, Month::September, 2018),
        Date::new(29, Month::March, 2019),
        Date::new(30, Month::September, 2019),
        Date::new(31, Month::March, 2020),
        Date::new(30, Month::June, 2020),
    ];
    check_dates(&t, &expected);
    assert!(!t.is_regular(0 + 1), "expected is_regular[{}] to be false", 0);

    // After, with truncation date falling on a schedule date
    let t = s.after(&Date::new(28, Month::September, 2018));
    let expected = vec![
        Date::new(28, Month::September, 2018),
        Date::new(29, Month::March, 2019),
        Date::new(30, Month::September, 2019),
        Date::new(31, Month::March, 2020),
        Date::new(30, Month::June, 2020),
    ];
    check_dates(&t, &expected);
    assert!(t.is_regular(0 + 1), "expected is_regular[{}] to be true", 0);
}

fn check_dates(s: &Schedule, expected: &[Date]) {
    assert_eq!(
        s.size(),
        expected.len(),
        "expected {} dates, found {}",
        expected.len(),
        s.size()
    );
    for i in 0..expected.len() {
        let computed = *s.date(i);
        assert_eq!(
            computed, expected[i],
            "expected {:?} at index {}, found {:?}",
            expected[i], i, computed
        );
    }
}

fn pricing_context() -> PricingContext {
    PricingContext {
        eval_date: Date::new(1, Month::December, 2022),
    }
}
