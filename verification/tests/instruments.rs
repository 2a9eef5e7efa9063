use rust_quantlib::cashflows::cashflow::{
    accrued_days, has_occurred, maturity_date, next_cashflow, stepwise_discount_terms,
    trading_ex_coupon,
};
use rust_quantlib::datetime::daycounter::DayCounter;
use rust_quantlib::datetime::daycounters::actualactual::{ActualActual, ActualActualConvention, ISDA};
use rust_quantlib::datetime::daycounters::one::One;
use rust_quantlib::datetime::daycounters::thirty365::Thirty365;
use rust_quantlib::cashflows::fixedratecouponbuilder::{
    coupon_periods, CouponDayCounter, CouponError, ExCouponSettings, PaymentSettings,
};
use rust_quantlib::context::pricing_context::PricingContext;
use rust_quantlib::datetime::businessdayconvention::BusinessDayConvention;
use rust_quantlib::datetime::date::Date;
use rust_quantlib::datetime::dategenerationrule::DateGenerationRule;
use rust_quantlib::datetime::frequency::Frequency;
use rust_quantlib::datetime::holidays::target::Target;
use rust_quantlib::datetime::months::Month;
use rust_quantlib::datetime::period::Period;
use rust_quantlib::datetime::schedule::ScheduleBuilder;
use rust_quantlib::datetime::timeunit::TimeUnit;
use rust_quantlib::instruments::bond::BondPriceType;
use rust_quantlib::instruments::creditdefaultswap::{checked_cds_maturity, cds_maturity};

fn d(day: u32, m: Month, y: i32) -> Date {
    Date::new(day, m, y)
}

#[test]
fn cds_maturities_roll_on_the_twentieth() {
    let five_years = Period::new(5, TimeUnit::Years);
    assert_eq!(
        cds_maturity(&d(20, Month::September, 2015), five_years, DateGenerationRule::CDS2015),
        d(20, Month::December, 2020)
    );
    assert_eq!(
        cds_maturity(&d(19, Month::September, 2015), five_years, DateGenerationRule::CDS2015),
        d(20, Month::June, 2020)
    );
    assert_eq!(
        cds_maturity(&d(20, Month::December, 2015), five_years, DateGenerationRule::CDS2015),
        d(20, Month::December, 2020)
    );
    assert_eq!(
        cds_maturity(&d(19, Month::September, 2015), five_years, DateGenerationRule::CDS),
        d(20, Month::September, 2020)
    );
    assert_eq!(
        cds_maturity(
            &d(20, Month::December, 2015),
            Period::new(0, TimeUnit::Months),
            DateGenerationRule::CDS2015
        ),
        Date::default()
    );
    assert_eq!(
        checked_cds_maturity(&d(20, Month::December, 2015), five_years, DateGenerationRule::Backward),
        None
    );
    assert_eq!(
        checked_cds_maturity(
            &d(20, Month::December, 2015),
            Period::new(2, TimeUnit::Months),
            DateGenerationRule::CDS
        ),
        None
    );
    assert_eq!(
        checked_cds_maturity(
            &d(20, Month::December, 2015),
            Period::new(0, TimeUnit::Months),
            DateGenerationRule::OldCDS
        ),
        None
    );
}

#[test]
fn cash_flows_occur_by_their_date() {
    let cf = d(5, Month::January, 2023);
    assert!(!has_occurred(&cf, &cf, true));
    assert!(has_occurred(&cf, &cf, false));
    assert!(has_occurred(&cf, &d(6, Month::January, 2023), true));
    assert!(!has_occurred(&cf, &d(4, Month::January, 2023), false));
    assert!(!trading_ex_coupon(&Date::default(), &cf));
    assert!(trading_ex_coupon(&d(1, Month::January, 2023), &cf));
    assert!(!trading_ex_coupon(&d(6, Month::January, 2023), &cf));
}

#[test]
fn fixed_rate_coupons_follow_the_schedule() {
    let today = d(4, Month::January, 2023);
    let from = today.sub_period(&Period::new(2, TimeUnit::Months));
    let to = today.add_period(&Period::new(4, TimeUnit::Months));
    let schedule = ScheduleBuilder::new(
        PricingContext::new(today),
        from,
        to,
        Period::from_frequency(Frequency::Semiannual).unwrap(),
        Target::new(),
    )
    .with_convention(BusinessDayConvention::Unadjusted)
    .backwards()
    .build();
    let pay = PaymentSettings {
        calendar: Some(Target::new()),
        adjustment: Some(BusinessDayConvention::Following),
        lag: None,
    };
    let no_ex = ExCouponSettings {
        period: None,
        calendar: None,
        adjustment: None,
        end_of_month: None,
    };
    let coupons = coupon_periods(&schedule, &pay, &no_ex, 1, 1).unwrap();
    assert_eq!(coupons.len(), 1);
    let c = coupons[0];
    assert_eq!(c.accrual_start_date, d(4, Month::November, 2022));
    assert_eq!(c.accrual_end_date, d(4, Month::May, 2023));
    assert_eq!(c.payment_date, d(4, Month::May, 2023));
    assert_eq!(c.reference_period_start, d(4, Month::November, 2022));
    assert_eq!(c.ex_coupon_date, Date::default());
    assert_eq!(c.day_counter, CouponDayCounter::FirstPeriod);
    // the coupon has accrued 61 days on the evaluation date
    assert_eq!(today.difference(&c.accrual_start_date), 61);

    let ex = ExCouponSettings {
        period: Some(Period::new(2, TimeUnit::Days)),
        calendar: Some(Target::new()),
        adjustment: Some(BusinessDayConvention::Preceding),
        end_of_month: None,
    };
    assert_eq!(
        coupon_periods(&schedule, &pay, &ex, 1, 1).err(),
        Some(CouponError::MissingExCouponEndOfMonth)
    );
    let ex = ExCouponSettings {
        end_of_month: Some(false),
        ..ex
    };
    let c = coupon_periods(&schedule, &pay, &ex, 1, 1).unwrap()[0];
    assert_eq!(c.ex_coupon_date, d(2, Month::May, 2023));
    assert_eq!(coupon_periods(&schedule, &pay, &no_ex, 0, 1).err(), Some(CouponError::NoCouponRates));
    assert_eq!(coupon_periods(&schedule, &pay, &no_ex, 1, 0).err(), Some(CouponError::NoNotionals));
}

#[test]
fn bond_prices_are_clean_or_dirty() {
    assert!(BondPriceType::Clean < BondPriceType::Dirty);
    assert_ne!(BondPriceType::Clean, BondPriceType::Dirty);
}

#[test]
fn each_coupon_accrues_over_its_own_period() {
    let today = d(4, Month::January, 2023);
    let schedule = ScheduleBuilder::new(
        PricingContext::new(today),
        d(4, Month::January, 2023),
        d(4, Month::January, 2024),
        Period::from_frequency(Frequency::Quarterly).unwrap(),
        Target::new(),
    )
    .with_convention(BusinessDayConvention::Unadjusted)
    .forwards()
    .build();
    assert_eq!(schedule.size(), 5);
    let pay = PaymentSettings {
        calendar: None,
        adjustment: None,
        lag: None,
    };
    let no_ex = ExCouponSettings {
        period: None,
        calendar: None,
        adjustment: None,
        end_of_month: None,
    };
    let coupons = coupon_periods(&schedule, &pay, &no_ex, 2, 3).unwrap();
    assert_eq!(coupons.len(), 4);
    for (k, c) in coupons.iter().enumerate() {
        assert_eq!(c.accrual_start_date, *schedule.date(k));
        assert_eq!(c.accrual_end_date, *schedule.date(k + 1));
        assert_eq!(c.reference_period_start, *schedule.date(k));
        assert_eq!(c.rate_index, k.min(1));
        assert_eq!(c.notional_index, k.min(2));
    }
    assert_eq!(coupons[2].accrual_start_date, d(4, Month::July, 2023));
    assert_eq!(coupons[2].accrual_end_date, d(4, Month::October, 2023));
    assert_eq!(coupons[3].accrual_start_date, d(4, Month::October, 2023));
    assert_eq!(coupons[1].payment_date, d(4, Month::July, 2023));
    assert_eq!(coupons[0].day_counter, CouponDayCounter::FirstPeriod);
    assert_eq!(coupons[1].day_counter, CouponDayCounter::Rate);
    assert_eq!(coupons[3].day_counter, CouponDayCounter::LastPeriod);
}

/// The value of a sum of terms whose denominators divide 365, in 365ths of a year.
fn in_365ths(terms: &[(i64, i64)]) -> i64 {
    terms
        .iter()
        .map(|(n, den)| {
            assert_eq!(365 % den, 0);
            n * (365 / den)
        })
        .sum()
}

#[test]
fn stepwise_discount_time_counts_from_the_last_payment() {
    let dc = DayCounter::ActualActual(ActualActual {
        convention: ActualActualConvention::ISDA(ISDA {}),
    });
    let null = Date::default();
    let cf = d(3, Month::July, 2023);
    let start = d(2, Month::January, 2023);
    let npv = d(1, Month::March, 2023);
    // accrued coupon: the whole period less the part accrued by the last payment date
    let t = stepwise_discount_terms(&dc, &cf, &start, &null, &null, &npv, &npv).unwrap();
    assert_eq!(in_365ths(&t), 124);
    // no accrual start: the stretch from the last payment date
    let t = stepwise_discount_terms(&dc, &cf, &null, &null, &null, &npv, &d(3, Month::April, 2023))
        .unwrap();
    assert_eq!(in_365ths(&t), 91);
    // the last payment on the accrual start
    let t = stepwise_discount_terms(&dc, &cf, &start, &start, &cf, &npv, &start).unwrap();
    assert_eq!(in_365ths(&t), 182);
    // no previous payment and no reference period: a year before the payment stands in,
    // which must lie in the range of dates
    assert!(stepwise_discount_terms(&dc, &d(1, Month::June, 1900), &null, &null, &null, &npv, &npv)
        .is_none());
}

#[test]
fn next_cashflow_and_maturity_of_a_leg() {
    let today = d(4, Month::January, 2023);
    let schedule = ScheduleBuilder::new(
        PricingContext::new(today),
        d(4, Month::January, 2023),
        d(4, Month::January, 2024),
        Period::from_frequency(Frequency::Quarterly).unwrap(),
        Target::new(),
    )
    .with_convention(BusinessDayConvention::Unadjusted)
    .forwards()
    .build();
    let pay = PaymentSettings {
        calendar: None,
        adjustment: None,
        lag: None,
    };
    let no_ex = ExCouponSettings {
        period: None,
        calendar: None,
        adjustment: None,
        end_of_month: None,
    };
    let leg = coupon_periods(&schedule, &pay, &no_ex, 1, 1).unwrap();
    assert_eq!(maturity_date(&leg), d(4, Month::January, 2024));
    assert_eq!(next_cashflow(&leg, false, &today), Some(0));
    // the coupon paid on the settlement date counts as occurred unless it is included
    let paid = leg[1].payment_date;
    assert_eq!(next_cashflow(&leg, false, &paid), Some(2));
    assert_eq!(next_cashflow(&leg, true, &paid), Some(1));
    assert_eq!(next_cashflow(&leg, false, &d(1, Month::March, 2024)), None);
}

#[test]
fn a_short_last_coupon_is_measured_against_a_full_period_from_its_start() {
    let schedule = ScheduleBuilder::new(
        PricingContext::new(d(4, Month::January, 2023)),
        d(4, Month::January, 2023),
        d(20, Month::December, 2023),
        Period::from_frequency(Frequency::Quarterly).unwrap(),
        Target::new(),
    )
    .with_convention(BusinessDayConvention::Unadjusted)
    .forwards()
    .build();
    let pay = PaymentSettings {
        calendar: None,
        adjustment: None,
        lag: None,
    };
    let no_ex = ExCouponSettings {
        period: None,
        calendar: None,
        adjustment: None,
        end_of_month: None,
    };
    let coupons = coupon_periods(&schedule, &pay, &no_ex, 1, 1).unwrap();
    let last = coupons[coupons.len() - 1];
    assert_eq!(last.accrual_start_date, d(4, Month::October, 2023));
    assert_eq!(last.accrual_end_date, d(20, Month::December, 2023));
    assert_eq!(last.reference_period_start, d(4, Month::October, 2023));
    assert_eq!(last.reference_period_end, d(4, Month::January, 2024));
    assert_eq!(last.day_counter, CouponDayCounter::LastPeriod);
}

#[test]
fn stepwise_discount_time_with_a_thirty_365_day_counter() {
    let dc = DayCounter::Thirty365(Thirty365::new());
    let null = Date::default();
    let t = stepwise_discount_terms(
        &dc,
        &d(3, Month::July, 2023),
        &d(2, Month::January, 2023),
        &null,
        &null,
        &d(1, Month::March, 2023),
        &d(1, Month::March, 2023),
    )
    .unwrap();
    // 30/365: 181 days for the coupon, 59 accrued by March 1st
    assert_eq!(in_365ths(&t), 181 - 59);
}

#[test]
fn accrued_days_of_a_leg_count_from_the_start_of_accrual() {
    let today = d(4, Month::January, 2023);
    let schedule = ScheduleBuilder::new(
        PricingContext::new(today),
        d(4, Month::January, 2023),
        d(4, Month::January, 2024),
        Period::from_frequency(Frequency::Quarterly).unwrap(),
        Target::new(),
    )
    .with_convention(BusinessDayConvention::Unadjusted)
    .forwards()
    .build();
    let pay = PaymentSettings {
        calendar: None,
        adjustment: None,
        lag: None,
    };
    let no_ex = ExCouponSettings {
        period: None,
        calendar: None,
        adjustment: None,
        end_of_month: None,
    };
    let leg = coupon_periods(&schedule, &pay, &no_ex, 1, 1).unwrap();
    let isda = DayCounter::ActualActual(ActualActual {
        convention: ActualActualConvention::ISDA(ISDA {}),
    });
    let dcs: Vec<DayCounter> = leg.iter().map(|_| isda.clone()).collect();
    assert_eq!(leg[0].accrual_days(&isda), 90);
    assert_eq!(leg[0].accrued_days(&isda, &d(1, Month::March, 2023)), 56);
    assert_eq!(leg[0].accrued_days(&isda, &d(4, Month::January, 2023)), 0);
    assert_eq!(leg[0].accrued_days(&DayCounter::One(One::new()), &d(1, Month::March, 2023)), 1);
    // on March 1st the first coupon is the next one
    assert_eq!(accrued_days(&leg, &dcs, false, &d(1, Month::March, 2023)), 56);
    // on May 4th the second coupon has accrued a month
    assert_eq!(accrued_days(&leg, &dcs, false, &d(4, Month::May, 2023)), 30);
    // after the last payment nothing accrues
    assert_eq!(accrued_days(&leg, &dcs, false, &d(1, Month::March, 2024)), 0);
}
