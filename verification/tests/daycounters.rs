use rust_quantlib::context::pricing_context::PricingContext;
use rust_quantlib::datetime::businessdayconvention::BusinessDayConvention::Unadjusted;
use rust_quantlib::datetime::date::Date;
use rust_quantlib::datetime::daycounters::actualactual::{
    ActualActual, ActualActualConvention, AFB, ISDA, OldISMA,
};
use rust_quantlib::datetime::daycounters::one::One;
use rust_quantlib::datetime::frequency::Frequency;
use rust_quantlib::datetime::holidays::target::Target;
use rust_quantlib::datetime::months::Month::{
    April, August, December, February, January, July, June, May, November, September,
};
use rust_quantlib::datetime::period::Period;
use rust_quantlib::datetime::schedulebuilder::ScheduleBuilder;
use rust_quantlib::datetime::timeunit::TimeUnit::{Months, Years};

/// The value of a year fraction written as a sum of terms.
fn value(terms: &[(i64, i64)]) -> f64 {
    terms.iter().map(|(n, d)| *n as f64 / *d as f64).sum()
}

#[test]
fn test_one_day_counter() {
    let periods = vec![
        Period::new(3, Months),
        Period::new(6, Months),
        Period::new(1, Years),
    ];
    let expected: Vec<f64> = vec![1.0, 1.0, 1.0];
    // 1 year should be enough
    let first = Date::new(1, January, 2004);
    let last = Date::new(31, December, 2004);

    let dc = One::new();

    let mut start = first;
    while start <= last {
        for i in 0..periods.len() {
            let p = &periods[i];
            let end = start.add_period(p);
            let calculated = dc.day_count(&start, &end) as f64;
            let diff = (calculated - expected[i]).abs();
            assert!(
                diff < 1.0e-12,
                "from {:?} to {:?}: calculated: {}, expected: {}",
                start,
                end,
                calculated,
                expected[i]
            );
        }
        start.add_assign_days(1);
    }
}

#[test]
fn test_actual_actual_isma() {
    let end_of_month = false;
    let frequency = Frequency::Semiannual;
    let interest_accrual_date = Date::new(30, January, 1999);
    let maturity_date = Date::new(30, June, 2000);
    let first_coupon_date = Date::new(30, July, 1999);
    let penultimate_coupon_date = Date::new(30, January, 2000);
    let d1 = Date::new(30, January, 2000);
    let d2 = Date::new(30, June, 2000);

    let expected = 152.0 / (182.0 * 2.0);

    do_test_actual_actual_isma(
        end_of_month,
        frequency,
        interest_accrual_date,
        maturity_date,
        first_coupon_date,
        penultimate_coupon_date,
        d1,
        d2,
        expected,
    );

    let end_of_month = true;
    let frequency = Frequency::Quarterly;
    let interest_accrual_date = Date::new(31, May, 1999);
    let maturity_date = Date::new(30, April, 2000);
    let first_coupon_date = Date::new(31, August, 1999);
    let penultimate_coupon_date = Date::new(30, November, 1999);
    let d1 = Date::new(30, November, 1999);
    let d2 = Date::new(30, April, 2000);

    let expected = 91.0 / (91.0 * 4.0) + 61.0 / (92.0 * 4.0);

    do_test_actual_actual_isma(
        end_of_month,
        frequency,
        interest_accrual_date,
        maturity_date,
        first_coupon_date,
        penultimate_coupon_date,
        d1,
        d2,
        expected,
    );

    let end_of_month = false;
    let frequency = Frequency::Quarterly;
    let interest_accrual_date = Date::new(31, May, 1999);
    let maturity_date = Date::new(30, April, 2000);
    let first_coupon_date = Date::new(31, August, 1999);
    let penultimate_coupon_date = Date::new(30, November, 1999);
    let d1 = Date::new(30, November, 1999);
    let d2 = Date::new(30, April, 2000);

    let expected = 91.0 / (91.0 * 4.0) + 61.0 / (90.0 * 4.0);

    do_test_actual_actual_isma(
        end_of_month,
        frequency,
        interest_accrual_date,
        maturity_date,
        first_coupon_date,
        penultimate_coupon_date,
        d1,
        d2,
        expected,
    );
}

#[allow(clippy::too_many_arguments)]
fn do_test_actual_actual_isma(
    end_of_month: bool,
    frequency: Frequency,
    interest_accrual_date: Date,
    maturity_date: Date,
    first_coupon_date: Date,
    penultimate_coupon_date: Date,
    d1: Date,
    d2: Date,
    expected: f64,
) {
    let schedule = ScheduleBuilder::new(
        pricing_context(interest_accrual_date),
        interest_accrual_date,
        maturity_date,
        Period::from_frequency(frequency).unwrap(),
        Target::new(),
    )
    .with_convention(Unadjusted) // ignore the calendar
    .with_first_date(first_coupon_date)
    .with_next_to_last_date(penultimate_coupon_date)
    .with_end_of_month(end_of_month)
    .build();

    let day_counter = ActualActual::actual_actual_isma(schedule);
    let calculated = value(&day_counter.year_fraction_terms(&d1, &d2).unwrap());

    assert!(
        (calculated - expected).abs() <= 1.0e-10,
        "period: {:?} to {:?}, first coupon date: {:?}, penultimate coupon date: {:?},\
         calculated: {}, expected: {}, diff: {}",
        d1,
        d2,
        first_coupon_date,
        penultimate_coupon_date,
        calculated,
        expected,
        (calculated - expected).abs(),
    );
}

fn old_isma() -> ActualActual {
    ActualActual {
        convention: ActualActualConvention::OldISMA(OldISMA {}),
    }
}

fn isda() -> ActualActual {
    ActualActual {
        convention: ActualActualConvention::ISDA(ISDA {}),
    }
}

fn afb() -> ActualActual {
    ActualActual {
        convention: ActualActualConvention::AFB(AFB {}),
    }
}

struct ActualActualTestCase {
    daycounter: ActualActual,
    d1: Date,
    d2: Date,
    ref_period_start: Date,
    ref_period_end: Date,
    expected: f64,
}

impl ActualActualTestCase {
    fn new(
        daycounter: ActualActual,
        d1: Date,
        d2: Date,
        ref_period_start: Date,
        ref_period_end: Date,
        expected: f64,
    ) -> Self {
        Self {
            daycounter,
            d1,
            d2,
            ref_period_start,
            ref_period_end,
            expected,
        }
    }
}

#[test]
fn test_actual_actual() {
    let test_cases = vec![
        // first example
        ActualActualTestCase::new(
            old_isma(),
            Date::new(1, November, 2003),
            Date::new(1, May, 2004),
            Date::new(1, November, 2003),
            Date::new(1, May, 2004),
            0.500000000000,
        ),
        ActualActualTestCase::new(
            isda(),
            Date::new(1, November, 2003),
            Date::new(1, May, 2004),
            Date::default(),
            Date::default(),
            0.497724380567,
        ),
        ActualActualTestCase::new(
            afb(),
            Date::new(1, November, 2003),
            Date::new(1, May, 2004),
            Date::default(),
            Date::default(),
            0.497267759563,
        ),
        // short first calculation period (first period)
        ActualActualTestCase::new(
            old_isma(),
            Date::new(1, February, 1999),
            Date::new(1, July, 1999),
            Date::new(1, July, 1998),
            Date::new(1, July, 1999),
            0.410958904110,
        ),
        ActualActualTestCase::new(
            isda(),
            Date::new(1, February, 1999),
            Date::new(1, July, 1999),
            Date::default(),
            Date::default(),
            0.410958904110,
        ),
        ActualActualTestCase::new(
            afb(),
            Date::new(1, February, 1999),
            Date::new(1, July, 1999),
            Date::default(),
            Date::default(),
            0.410958904110,
        ),
        // short first calculation period (second period)
        ActualActualTestCase::new(
            old_isma(),
            Date::new(1, July, 1999),
            Date::new(1, July, 2000),
            Date::new(1, July, 1999),
            Date::new(1, July, 2000),
            1.000000000000,
        ),
        ActualActualTestCase::new(
            isda(),
            Date::new(1, July, 1999),
            Date::new(1, July, 2000),
            Date::default(),
            Date::default(),
            1.001377348600,
        ),
        ActualActualTestCase::new(
            afb(),
            Date::new(1, July, 1999),
            Date::new(1, July, 2000),
            Date::default(),
            Date::default(),
            1.000000000000,
        ),
        // long first calculation period (first period)
        ActualActualTestCase::new(
            old_isma(),
            Date::new(15, August, 2002),
            Date::new(15, July, 2003),
            Date::new(15, January, 2003),
            Date::new(15, July, 2003),
            0.915760869565,
        ),
        ActualActualTestCase::new(
            isda(),
            Date::new(15, August, 2002),
            Date::new(15, July, 2003),
            Date::default(),
            Date::default(),
            0.915068493151,
        ),
        ActualActualTestCase::new(
            afb(),
            Date::new(15, August, 2002),
            Date::new(15, July, 2003),
            Date::default(),
            Date::default(),
            0.915068493151,
        ),
        // long first calculation period (second period)
        /* Warning: the ISDA case is in disagreement with mktc1198.pdf */
        ActualActualTestCase::new(
            old_isma(),
            Date::new(15, July, 2003),
            Date::new(15, January, 2004),
            Date::new(15, July, 2003),
            Date::new(15, January, 2004),
            0.500000000000,
        ),
        ActualActualTestCase::new(
            isda(),
            Date::new(15, July, 2003),
            Date::new(15, January, 2004),
            Date::default(),
            Date::default(),
            0.504004790778,
        ),
        ActualActualTestCase::new(
            afb(),
            Date::new(15, July, 2003),
            Date::new(15, January, 2004),
            Date::default(),
            Date::default(),
            0.504109589041,
        ),
        // short final calculation period (penultimate period)
        ActualActualTestCase::new(
            old_isma(),
            Date::new(30, July, 1999),
            Date::new(30, January, 2000),
            Date::new(30, July, 1999),
            Date::new(30, January, 2000),
            0.500000000000,
        ),
        ActualActualTestCase::new(
            isda(),
            Date::new(30, July, 1999),
            Date::new(30, January, 2000),
            Date::default(),
            Date::default(),
            0.503892506924,
        ),
        ActualActualTestCase::new(
            afb(),
            Date::new(30, July, 1999),
            Date::new(30, January, 2000),
            Date::default(),
            Date::default(),
            0.504109589041,
        ),
        // short final calculation period (final period)
        ActualActualTestCase::new(
            old_isma(),
            Date::new(30, January, 2000),
            Date::new(30, June, 2000),
            Date::new(30, January, 2000),
            Date::new(30, July, 2000),
            0.417582417582,
        ),
        ActualActualTestCase::new(
            isda(),
            Date::new(30, January, 2000),
            Date::new(30, June, 2000),
            Date::default(),
            Date::default(),
            0.415300546448,
        ),
        ActualActualTestCase::new(
            afb(),
            Date::new(30, January, 2000),
            Date::new(30, June, 2000),
            Date::default(),
            Date::default(),
            0.41530054644,
        ),
    ];

    for test_case in test_cases {
        let calculated = value(
            &test_case
                .daycounter
                .year_fraction_terms(
                    &test_case.d1,
                    &test_case.d2,
                    &test_case.ref_period_start,
                    &test_case.ref_period_end,
                )
                .unwrap(),
        );
        assert!(
            (calculated - test_case.expected).abs() <= 1.0e-10,
            "Daycounter: {}, period: {:?} to {:?}, reference period: {:?}, to: {:?},\
             calculated: {}, expected: {}, diff: {}",
            test_case.daycounter.name(),
            test_case.d1,
            test_case.d2,
            test_case.ref_period_start,
            test_case.ref_period_end,
            calculated,
            test_case.expected,
            (calculated - test_case.expected).abs(),
        );
    }
}

fn pricing_context(eval_date: Date) -> PricingContext {
    PricingContext { eval_date }
}

#[test]
fn year_fractions_change_sign_with_the_dates() {
    let d1 = Date::new(15, August, 2002);
    let d2 = Date::new(15, July, 2003);
    for dc in [old_isma(), isda(), afb()] {
        let forward = value(&dc.year_fraction_terms(&d1, &d2, &Date::default(), &Date::default()).unwrap());
        let backward = value(&dc.year_fraction_terms(&d2, &d1, &Date::default(), &Date::default()).unwrap());
        assert!((forward + backward).abs() < 1.0e-12);
        assert!(dc.year_fraction_terms(&d1, &d1, &Date::default(), &Date::default()).unwrap().is_empty());
        assert_eq!(dc.day_count(&d1, &d2), 334);
    }
}

#[test]
fn isda_counts_whole_years_and_year_lengths() {
    let terms = isda()
        .year_fraction_terms(
            &Date::new(1, November, 2003),
            &Date::new(1, May, 2004),
            &Date::default(),
            &Date::default(),
        )
        .unwrap();
    assert_eq!(terms, vec![(0, 1), (61, 365), (121, 366)]);
    assert_eq!(isda().name(), "Actual/Actual (ISDA)");
    assert_eq!(afb().name(), "Actual/Actual (AFB)");
    assert_eq!(old_isma().name(), "Actual/Actual (ISMA)");
}

#[test]
fn afb_counts_back_whole_years() {
    let terms = afb()
        .year_fraction_terms(
            &Date::new(1, July, 1999),
            &Date::new(1, July, 2001),
            &Date::default(),
            &Date::default(),
        )
        .unwrap();
    assert_eq!(terms, vec![(2, 1), (0, 365)]);
}

#[test]
fn old_isma_rejects_a_reference_period_ending_before_it_starts() {
    let r = old_isma().year_fraction_terms(
        &Date::new(1, July, 1999),
        &Date::new(1, July, 2000),
        &Date::new(1, July, 2000),
        &Date::new(1, July, 1999),
    );
    assert!(r.is_none());
}

#[test]
fn old_isma_measures_long_first_periods_against_the_period_before() {
    let dc = ActualActual::actual_actual_old_isma();
    let terms = dc
        .year_fraction_terms(
            &Date::new(15, August, 2002),
            &Date::new(15, July, 2003),
            &Date::new(15, January, 2003),
            &Date::new(15, July, 2003),
        )
        .unwrap();
    // from August 15th to January 15th against the six months before, then the half year
    assert_eq!(terms, vec![(6 * 153, 12 * 184), (6 * 181, 12 * 181)]);
    assert_eq!(dc.name(), "Actual/Actual (ISMA)");
}
