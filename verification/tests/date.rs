use std::collections::HashSet;

use rust_quantlib::datetime::date::Date;
use rust_quantlib::datetime::months::Month;
use rust_quantlib::datetime::period::Period;
use rust_quantlib::datetime::timeunit::TimeUnit;
use rust_quantlib::datetime::weekday::Weekday;

#[test]
fn test_new_date() {
    let date = Date::new(1, Month::January, 1900);
    assert_eq!(date.serial_number(), 2);

    let date = Date::new(1, Month::January, 2008);
    assert_eq!(date.serial_number(), 39448);
    assert_eq!(date.month(), Month::January);
    assert_eq!(date.year(), 2008);
    assert_eq!(date.weekday(), Weekday::Tuesday);
    assert_eq!(date.day_of_month(), 1);
    assert_eq!(date.day_of_year(), 1);

    assert_eq!(date.end_of_month().day_of_month(), 31);
    assert!(date.end_of_month().is_end_of_month());
}

#[test]
fn test_from_serial() {
    let date = Date::from_serial(39448);
    assert_eq!(date.month(), Month::January);
    assert_eq!(date.year(), 2008);
    assert_eq!(date.weekday(), Weekday::Tuesday);
    assert_eq!(date.day_of_month(), 1);
    assert_eq!(date.day_of_year(), 1);

    let date = Date::from_serial(44896);
    assert_eq!(date.month(), Month::December);
    assert_eq!(date.year(), 2022);
    assert_eq!(date.weekday(), Weekday::Thursday);
    assert_eq!(date.day_of_month(), 1);
    assert_eq!(date.day_of_year(), 335);
}

#[test]
fn test_hash() {
    let mut dates = HashSet::new();
    dates.insert(Date::from_serial(39448));
    dates.insert(Date::from_serial(39448));
    dates.insert(Date::from_serial(44896));
    assert_eq!(dates.len(), 2);
    assert!(dates.contains(&Date::new(1, Month::January, 2008)));
    assert!(dates.contains(&Date::new(1, Month::December, 2022)));
}

#[test]
fn test_add_serial_number() {
    let d = Date::new(1, Month::January, 2008);
    let d2 = d.add_days(1);
    assert_eq!(d2, Date::new(2, Month::January, 2008));
}

#[test]
fn test_add_assign_serial_number() {
    let mut d = Date::new(1, Month::January, 2008);
    d.add_assign_days(10);
    assert_eq!(d.serial_number(), 39458);
    assert_eq!(d, Date::new(11, Month::January, 2008));
}

#[test]
fn test_sub_serial_number() {
    let d = Date::new(1, Month::January, 2008);
    let d2 = d.sub_days(10);
    assert_eq!(d2, Date::new(22, Month::December, 2007));
}

#[test]
fn test_sub_assign_serial_number() {
    let mut d = Date::new(1, Month::January, 2008);
    d.sub_assign_days(10);
    assert_eq!(d.serial_number(), 39438);
    assert_eq!(d, Date::new(22, Month::December, 2007));
}

#[test]
fn test_add_period() {
    let d = Date::new(1, Month::January, 2008);
    let p = Period::new(1, TimeUnit::Days);
    assert_eq!(d.add_period(&p), Date::new(2, Month::January, 2008));

    let d = Date::new(1, Month::January, 2008);
    let p = Period::new(1, TimeUnit::Weeks);
    assert_eq!(d.add_period(&p), Date::new(8, Month::January, 2008));

    let d = Date::new(1, Month::January, 2008);
    let p = Period::new(1, TimeUnit::Months);
    assert_eq!(d.add_period(&p), Date::new(1, Month::February, 2008));

    let d = Date::new(1, Month::January, 2008);
    let p = Period::new(10, TimeUnit::Years);
    assert_eq!(d.add_period(&p), Date::new(1, Month::January, 2018));
}

#[test]
fn test_sub_period() {
    let d = Date::new(1, Month::January, 2008);
    let p = Period::new(1, TimeUnit::Days);
    assert_eq!(d.sub_period(&p), Date::new(31, Month::December, 2007));

    let d = Date::new(1, Month::January, 2008);
    let p = Period::new(1, TimeUnit::Weeks);
    assert_eq!(d.sub_period(&p), Date::new(25, Month::December, 2007));

    let d = Date::new(1, Month::January, 2008);
    let p = Period::new(1, TimeUnit::Months);
    assert_eq!(d.sub_period(&p), Date::new(1, Month::December, 2007));

    let d = Date::new(1, Month::January, 2008);
    let p = Period::new(10, TimeUnit::Years);
    assert_eq!(d.sub_period(&p), Date::new(1, Month::January, 1998));
}

#[test]
fn test_days_between() {
    let d1 = Date::new(1, Month::January, 2022);
    let d2 = Date::new(1, Month::December, 2022);
    let days = d2.difference(&d1) as f64;
    assert_eq!(days, 334.0);
}

#[test]
fn test_consistency() {
    let min_date = Date::min_date().serial_number() + 1;
    let max_date = Date::max_date().serial_number();

    let mut dyold = Date::from_serial(min_date - 1).day_of_year();
    let mut dold = Date::from_serial(min_date - 1).day_of_month();
    let mut mold = Date::from_serial(min_date - 1).month();
    let mut yold = Date::from_serial(min_date - 1).year();
    let mut wold = Date::from_serial(min_date - 1).weekday();

    for i in min_date..=max_date {
        let t = Date::from_serial(i);
        let mut serial = t.serial_number();
        // check serial number consistency
        assert_eq!(serial, i);

        let dy = t.day_of_year();
        let d = t.day_of_month();
        let m = t.month();
        let y = t.year();
        let wd = t.weekday();

        assert!(
            (dy == dyold + 1)
                || (dy == 1 && dyold == 365 && !Date::is_leap(yold))
                || (dy == 1 && dyold == 366 && Date::is_leap(yold)),
            "wrong day of year increment: \n date: {:?} \n day of year: {} \n previous: {}",
            t,
            dy,
            dyold
        );

        dyold = dy;

        let m_ordinal: i32 = m.into();
        let mold_ordinal: i32 = mold.into();
        assert!(
            (d == dold + 1 && m == mold && y == yold)
                || (d == 1 && m_ordinal == (mold_ordinal + 1) && y == yold)
                || (d == 1 && m_ordinal == 1 && y == yold + 1)
        );

        dold = d;
        mold = m;
        yold = y;

        // check month definition
        let m_ordinal: i32 = m.into();
        assert!(
            m_ordinal >= 1 || m_ordinal <= 12,
            "invalid month, date: {:?}, month: {:?}",
            t,
            m
        );

        // check day definition
        assert!(d >= 1, "invalid day of month, date: {:?}, day: {}", t, d);
        assert!(
            (m == Month::January && d <= 31)
                || (m == Month::February && d <= 28)
                || (m == Month::February && d == 29 && Date::is_leap(y))
                || (m == Month::March && d <= 31)
                || (m == Month::April && d <= 30)
                || (m == Month::May && d <= 31)
                || (m == Month::June && d <= 30)
                || (m == Month::July && d <= 31)
                || (m == Month::August && d <= 31)
                || (m == Month::September && d <= 30)
                || (m == Month::October && d <= 31)
                || (m == Month::November && d <= 30)
                || (m == Month::December && d <= 31),
            "invalid day of month, date: {:?}, day: {}",
            t,
            d
        );

        // check weekday definition
        let wd_ordinal: i32 = wd.into();
        let wold_ordinal: i32 = wold.into();
        assert!(
            (wd_ordinal == wold_ordinal + 1) || (wd_ordinal == 1 && wold_ordinal == 7),
            "invalid weekday, date: {:?}, weekday: {:?}, previous: {:?}",
            t,
            wd,
            wold
        );

        wold = wd;

        // create the same date with a different constructor
        let s = Date::new(d, m, y);
        // check serial number consistency
        serial = s.serial_number();
        assert!(
            serial == i,
            "inconsistent serial number:\n date: {:?}\n serial number: {}\
             \n cloned date: {:?}\n serial number: {}",
            t,
            i,
            s,
            serial
        );
    }
}

#[test]
fn date_ordering_follows_serial_numbers() {
    let a = Date::new(31, Month::December, 2007);
    let b = Date::new(1, Month::January, 2008);
    assert!(a < b);
    assert!(b > a);
    assert_eq!(b.difference(&a), 1);
    assert_eq!(Date::default(), Date::min_date());
    assert_eq!(Date::max_date(), Date::new(31, Month::December, 2199));
}

#[test]
fn advancing_by_months_clamps_to_month_end() {
    let d = Date::new(31, Month::January, 2008);
    assert_eq!(d.advance(1, TimeUnit::Months), Date::new(29, Month::February, 2008));
    assert_eq!(d.advance(13, TimeUnit::Months), Date::new(28, Month::February, 2009));
    let leap = Date::new(29, Month::February, 2008);
    assert_eq!(leap.advance(1, TimeUnit::Years), Date::new(28, Month::February, 2009));
    assert!(!Date::new(1, Month::January, 1900).can_advance_by(-1, TimeUnit::Days));
    assert!(!Date::new(31, Month::December, 2199).can_advance_by(1, TimeUnit::Months));
}

#[test]
fn nth_weekday_finds_the_third_wednesday() {
    let d = Date::nth_weekday(3, Weekday::Wednesday, Month::March, 2023);
    assert_eq!(d, Date::new(15, Month::March, 2023));
    assert!(Date::is_leap(2000));
    assert!(!Date::is_leap(1900));
    assert!(Date::is_leap(2024));
}
