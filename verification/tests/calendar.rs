use rust_quantlib::context::pricing_context::PricingContext;
use rust_quantlib::datetime::businessdayconvention::BusinessDayConvention;
use rust_quantlib::datetime::date::Date;
use rust_quantlib::datetime::holidays::japan::Japan;
use rust_quantlib::datetime::holidays::nilholiday::NilHoliday;
use rust_quantlib::datetime::holidays::target::Target;
use rust_quantlib::datetime::holidays::weekendsonly::WeekendsOnly;
use rust_quantlib::datetime::imm::IMM;
use rust_quantlib::datetime::months::Month;
use rust_quantlib::datetime::period::Period;
use rust_quantlib::datetime::timeunit::TimeUnit;
use rust_quantlib::datetime::weekday::Weekday;

fn d(day: u32, m: Month, y: i32) -> Date {
    Date::new(day, m, y)
}

#[test]
fn business_day_conventions_move_holidays() {
    let cal = Target::new();
    let saturday = d(4, Month::January, 2020);
    assert!(cal.is_holiday(&saturday));
    assert!(cal.is_weekend(Weekday::Saturday));
    assert!(!cal.is_weekend(Weekday::Monday));
    assert_eq!(cal.adjust(saturday, BusinessDayConvention::Following), d(6, Month::January, 2020));
    assert_eq!(cal.adjust(saturday, BusinessDayConvention::Preceding), d(3, Month::January, 2020));
    assert_eq!(cal.adjust(saturday, BusinessDayConvention::Nearest), d(3, Month::January, 2020));
    assert_eq!(
        cal.adjust(d(5, Month::January, 2020), BusinessDayConvention::Nearest),
        d(6, Month::January, 2020)
    );
    assert_eq!(cal.adjust(saturday, BusinessDayConvention::Unadjusted), saturday);
    // February 29th, 2020 is a Saturday: modified following stays in February
    let leap_day = d(29, Month::February, 2020);
    assert_eq!(
        cal.adjust(leap_day, BusinessDayConvention::ModifiedFollowing),
        d(28, Month::February, 2020)
    );
    // a business day stays where it is, and adjusting twice changes nothing more
    let monday = d(6, Month::January, 2020);
    assert_eq!(cal.adjust(monday, BusinessDayConvention::Following), monday);
    let once = cal.adjust(saturday, BusinessDayConvention::ModifiedPreceding);
    assert_eq!(cal.adjust(once, BusinessDayConvention::ModifiedPreceding), once);
}

#[test]
fn calendars_advance_by_business_days_and_periods() {
    let cal = Target::new();
    // the settlement example: three business days back from September 18th, 2008
    assert_eq!(
        cal.advance_by_days_with_following(d(18, Month::September, 2008), -3, TimeUnit::Days, false),
        d(15, Month::September, 2008)
    );
    assert_eq!(
        cal.advance(d(3, Month::January, 2020), 1, TimeUnit::Days, BusinessDayConvention::Following, false),
        d(6, Month::January, 2020)
    );
    assert_eq!(
        cal.advance_by_period(
            d(31, Month::January, 2020),
            &Period::new(1, TimeUnit::Months),
            BusinessDayConvention::Following,
            false
        ),
        d(2, Month::March, 2020)
    );
    // with the end-of-month rule, the last business day of January goes to that of February
    assert_eq!(
        cal.advance_by_period(
            d(31, Month::January, 2020),
            &Period::new(1, TimeUnit::Months),
            BusinessDayConvention::Following,
            true
        ),
        d(28, Month::February, 2020)
    );
    assert!(cal.checked_advance(d(31, Month::December, 2199), 1, TimeUnit::Years,
        BusinessDayConvention::Following, false).is_none());
    assert_eq!(
        cal.advance(d(6, Month::January, 2020), 0, TimeUnit::Days, BusinessDayConvention::Following, false),
        d(6, Month::January, 2020)
    );
}

#[test]
fn end_of_month_is_the_last_business_day() {
    let cal = Target::new();
    assert_eq!(cal.end_of_month(&d(10, Month::February, 2020)), d(28, Month::February, 2020));
    assert!(cal.is_end_of_month(&d(28, Month::February, 2020)));
    assert!(!cal.is_end_of_month(&d(27, Month::February, 2020)));
}

#[test]
fn holiday_lists_can_include_weekends() {
    let cal = WeekendsOnly::new();
    let list = cal.holiday_list(d(1, Month::January, 2020), d(12, Month::January, 2020), true);
    assert_eq!(
        list,
        vec![
            d(4, Month::January, 2020),
            d(5, Month::January, 2020),
            d(11, Month::January, 2020),
            d(12, Month::January, 2020)
        ]
    );
    assert!(cal
        .holiday_list(d(1, Month::January, 2020), d(12, Month::January, 2020), false)
        .is_empty());
    assert!(NilHoliday::new()
        .holiday_list(d(1, Month::January, 2020), d(31, Month::December, 2020), true)
        .is_empty());
}

#[test]
fn calendars_have_names() {
    assert_eq!(Target::new().name(), "TARGET");
    assert_eq!(Japan::new().name(), "Japan");
    assert_eq!(NilHoliday::new().name(), "Null");
    assert_eq!(WeekendsOnly::new().name(), "weekends only");
}

#[test]
fn japanese_equinoxes_are_holidays() {
    let cal = Japan::new();
    // vernal equinox day 2020 was Friday, March 20th; autumnal equinox day 2020 was
    // Tuesday, September 22nd
    assert!(cal.is_holiday(&d(20, Month::March, 2020)));
    assert!(cal.is_holiday(&d(22, Month::September, 2020)));
    assert!(!cal.is_holiday(&d(19, Month::March, 2020)));
}

#[test]
fn dates_move_by_periods_in_place() {
    let mut dt = d(31, Month::January, 2020);
    dt.add_assign_period(&Period::new(1, TimeUnit::Months));
    assert_eq!(dt, d(29, Month::February, 2020));
    dt.sub_assign_period(&Period::new(1, TimeUnit::Years));
    assert_eq!(dt, d(28, Month::February, 2019));
}

#[test]
fn next_imm_code_from_a_code() {
    let imm = IMM::new(PricingContext::new(d(1, Month::January, 2013)));
    let r = d(1, Month::January, 2013);
    assert_eq!(imm.next_code_from_code("H3", true, &r), "M3");
    assert_eq!(imm.next_date_from_code("H3", true, &r), d(19, Month::June, 2013));
}
