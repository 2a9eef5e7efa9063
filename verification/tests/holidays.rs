use rust_quantlib::datetime::calendar::Calendar;
use rust_quantlib::datetime::date::Date;
use rust_quantlib::datetime::holidays::brazil::Brazil;
use rust_quantlib::datetime::holidays::italy::Italy;
use rust_quantlib::datetime::holidays::target::Target;
use rust_quantlib::datetime::holidays::unitedkingdom::UnitedKingdom;
use rust_quantlib::datetime::months::Month;

#[test]
fn test_target() {
    let expected_hol = vec![
        Date::new(1, Month::January, 1999),
        Date::new(31, Month::December, 1999),
        //
        Date::new(21, Month::April, 2000),
        Date::new(24, Month::April, 2000),
        Date::new(1, Month::May, 2000),
        Date::new(25, Month::December, 2000),
        Date::new(26, Month::December, 2000),
        //
        Date::new(1, Month::January, 2001),
        Date::new(13, Month::April, 2001),
        Date::new(16, Month::April, 2001),
        Date::new(1, Month::May, 2001),
        Date::new(25, Month::December, 2001),
        Date::new(26, Month::December, 2001),
        Date::new(31, Month::December, 2001),
        //
        Date::new(1, Month::January, 2002),
        Date::new(29, Month::March, 2002),
        Date::new(1, Month::April, 2002),
        Date::new(1, Month::May, 2002),
        Date::new(25, Month::December, 2002),
        Date::new(26, Month::December, 2002),
        //
        Date::new(1, Month::January, 2003),
        Date::new(18, Month::April, 2003),
        Date::new(21, Month::April, 2003),
        Date::new(1, Month::May, 2003),
        Date::new(25, Month::December, 2003),
        Date::new(26, Month::December, 2003),
        //
        Date::new(1, Month::January, 2004),
        Date::new(9, Month::April, 2004),
        Date::new(12, Month::April, 2004),
        //
        Date::new(25, Month::March, 2005),
        Date::new(28, Month::March, 2005),
        Date::new(26, Month::December, 2005),
        //
        Date::new(14, Month::April, 2006),
        Date::new(17, Month::April, 2006),
        Date::new(1, Month::May, 2006),
        Date::new(25, Month::December, 2006),
        Date::new(26, Month::December, 2006),
    ];

    let cal: Calendar = Target::new();

    let holiday_list = cal.holiday_list(
        Date::new(1, Month::January, 1999),
        Date::new(31, Month::December, 2006),
        false,
    );

    let min_len = holiday_list.len().min(expected_hol.len());
    for i in 0..min_len {
        assert!(
            holiday_list[i] == expected_hol[i],
            "expected holiday was {:?}, while calculated holiday is {:?}",
            expected_hol[i],
            holiday_list[i]
        );
    }
    assert!(
        holiday_list.len() == expected_hol.len(),
        "there were {} expected holidays, while there are {} calculated holidays",
        expected_hol.len(),
        holiday_list.len()
    );
}

#[test]
fn test_brazil() {
    let expected_hol = vec![
        Date::new(7, Month::February, 2005),
        Date::new(8, Month::February, 2005),
        Date::new(25, Month::March, 2005),
        Date::new(21, Month::April, 2005),
        Date::new(26, Month::May, 2005),
        Date::new(7, Month::September, 2005),
        Date::new(12, Month::October, 2005),
        Date::new(2, Month::November, 2005),
        Date::new(15, Month::November, 2005),
        //
        Date::new(27, Month::February, 2006),
        Date::new(28, Month::February, 2006),
        Date::new(14, Month::April, 2006),
        Date::new(21, Month::April, 2006),
        Date::new(1, Month::May, 2006),
        Date::new(15, Month::June, 2006),
        Date::new(7, Month::September, 2006),
        Date::new(12, Month::October, 2006),
        Date::new(2, Month::November, 2006),
        Date::new(15, Month::November, 2006),
        Date::new(25, Month::December, 2006),
    ];

    let c = Brazil::new();

    let hol = c.holiday_list(
        Date::new(1, Month::January, 2005),
        Date::new(31, Month::December, 2006),
        false,
    );

    assert!(
        hol.len() == expected_hol.len(),
        "there were {} expected holidays, while there are {} calculated holidays",
        expected_hol.len(),
        hol.len()
    );

    for i in 0..expected_hol.len() {
        assert!(
            hol[i] == expected_hol[i],
            "expected holiday was {:?} while calculated holiday is {:?}",
            expected_hol[i],
            hol[i]
        );
    }
}

#[test]
fn italy_test_exchange() {
    let expected_hol = vec![
        Date::new(1, Month::January, 2002),
        Date::new(29, Month::March, 2002),
        Date::new(1, Month::April, 2002),
        Date::new(1, Month::May, 2002),
        Date::new(15, Month::August, 2002),
        Date::new(24, Month::December, 2002),
        Date::new(25, Month::December, 2002),
        Date::new(26, Month::December, 2002),
        Date::new(31, Month::December, 2002),
        //
        Date::new(1, Month::January, 2003),
        Date::new(18, Month::April, 2003),
        Date::new(21, Month::April, 2003),
        Date::new(1, Month::May, 2003),
        Date::new(15, Month::August, 2003),
        Date::new(24, Month::December, 2003),
        Date::new(25, Month::December, 2003),
        Date::new(26, Month::December, 2003),
        Date::new(31, Month::December, 2003),
        //
        Date::new(1, Month::January, 2004),
        Date::new(9, Month::April, 2004),
        Date::new(12, Month::April, 2004),
        Date::new(24, Month::December, 2004),
        Date::new(31, Month::December, 2004),
    ];

    let c = Italy::exchange();

    let hol = c.holiday_list(
        Date::new(1, Month::January, 2002),
        Date::new(31, Month::December, 2004),
        false,
    );

    assert!(
        hol.len() == expected_hol.len(),
        "there were {} expected holidays, while there are {} calculated holidays",
        expected_hol.len(),
        hol.len()
    );

    for i in 0..expected_hol.len() {
        assert!(
            hol[i] == expected_hol[i],
            "expected holiday was {:?} while calculated holiday is {:?}",
            expected_hol[i],
            hol[i]
        );
    }
}

#[test]
fn test_settlement() {
    let expected_hol = vec![
        Date::new(1, Month::January, 2004),
        Date::new(9, Month::April, 2004),
        Date::new(12, Month::April, 2004),
        Date::new(3, Month::May, 2004),
        Date::new(31, Month::May, 2004),
        Date::new(30, Month::August, 2004),
        Date::new(27, Month::December, 2004),
        Date::new(28, Month::December, 2004),
        //
        Date::new(3, Month::January, 2005),
        Date::new(25, Month::March, 2005),
        Date::new(28, Month::March, 2005),
        Date::new(2, Month::May, 2005),
        Date::new(30, Month::May, 2005),
        Date::new(29, Month::August, 2005),
        Date::new(26, Month::December, 2005),
        Date::new(27, Month::December, 2005),
        //
        Date::new(2, Month::January, 2006),
        Date::new(14, Month::April, 2006),
        Date::new(17, Month::April, 2006),
        Date::new(1, Month::May, 2006),
        Date::new(29, Month::May, 2006),
        Date::new(28, Month::August, 2006),
        Date::new(25, Month::December, 2006),
        Date::new(26, Month::December, 2006),
        //
        Date::new(1, Month::January, 2007),
        Date::new(6, Month::April, 2007),
        Date::new(9, Month::April, 2007),
        Date::new(7, Month::May, 2007),
        Date::new(28, Month::May, 2007),
        Date::new(27, Month::August, 2007),
        Date::new(25, Month::December, 2007),
        Date::new(26, Month::December, 2007),
    ];

    let c = UnitedKingdom::new();

    let hol = c.holiday_list(
        Date::new(1, Month::January, 2004),
        Date::new(31, Month::December, 2007),
        false,
    );

    assert!(
        hol.len() == expected_hol.len(),
        "there were {} expected holidays, while there are {} calculated holidays",
        expected_hol.len(),
        hol.len()
    );

    for i in 0..expected_hol.len() {
        assert!(
            hol[i] == expected_hol[i],
            "expected holiday was {:?} while calculated holiday is {:?}",
            expected_hol[i],
            hol[i]
        );
    }
}

#[test]
fn unitedkingdom_test_exchange() {
    let expected_hol = vec![
        Date::new(1, Month::January, 2004),
        Date::new(9, Month::April, 2004),
        Date::new(12, Month::April, 2004),
        Date::new(3, Month::May, 2004),
        Date::new(31, Month::May, 2004),
        Date::new(30, Month::August, 2004),
        Date::new(27, Month::December, 2004),
        Date::new(28, Month::December, 2004),
        //
        Date::new(3, Month::January, 2005),
        Date::new(25, Month::March, 2005),
        Date::new(28, Month::March, 2005),
        Date::new(2, Month::May, 2005),
        Date::new(30, Month::May, 2005),
        Date::new(29, Month::August, 2005),
        Date::new(26, Month::December, 2005),
        Date::new(27, Month::December, 2005),
        //
        Date::new(2, Month::January, 2006),
        Date::new(14, Month::April, 2006),
        Date::new(17, Month::April, 2006),
        Date::new(1, Month::May, 2006),
        Date::new(29, Month::May, 2006),
        Date::new(28, Month::August, 2006),
        Date::new(25, Month::December, 2006),
        Date::new(26, Month::December, 2006),
        //
        Date::new(1, Month::January, 2007),
        Date::new(6, Month::April, 2007),
        Date::new(9, Month::April, 2007),
        Date::new(7, Month::May, 2007),
        Date::new(28, Month::May, 2007),
        Date::new(27, Month::August, 2007),
        Date::new(25, Month::December, 2007),
        Date::new(26, Month::December, 2007),
    ];

    let c = UnitedKingdom::exchange();

    let hol = c.holiday_list(
        Date::new(1, Month::January, 2004),
        Date::new(31, Month::December, 2007),
        false,
    );

    assert!(
        hol.len() == expected_hol.len(),
        "there were {} expected holidays, while there are {} calculated holidays",
        expected_hol.len(),
        hol.len()
    );

    for i in 0..expected_hol.len() {
        assert!(
            hol[i] == expected_hol[i],
            "expected holiday was {:?} while calculated holiday is {:?}",
            expected_hol[i],
            hol[i]
        );
    }
}

#[test]
fn test_metals() {
    let expected_hol = vec![
        Date::new(1, Month::January, 2004),
        Date::new(9, Month::April, 2004),
        Date::new(12, Month::April, 2004),
        Date::new(3, Month::May, 2004),
        Date::new(31, Month::May, 2004),
        Date::new(30, Month::August, 2004),
        Date::new(27, Month::December, 2004),
        Date::new(28, Month::December, 2004),
        //
        Date::new(3, Month::January, 2005),
        Date::new(25, Month::March, 2005),
        Date::new(28, Month::March, 2005),
        Date::new(2, Month::May, 2005),
        Date::new(30, Month::May, 2005),
        Date::new(29, Month::August, 2005),
        Date::new(26, Month::December, 2005),
        Date::new(27, Month::December, 2005),
        //
        Date::new(2, Month::January, 2006),
        Date::new(14, Month::April, 2006),
        Date::new(17, Month::April, 2006),
        Date::new(1, Month::May, 2006),
        Date::new(29, Month::May, 2006),
        Date::new(28, Month::August, 2006),
        Date::new(25, Month::December, 2006),
        Date::new(26, Month::December, 2006),
        //
        Date::new(1, Month::January, 2007),
        Date::new(6, Month::April, 2007),
        Date::new(9, Month::April, 2007),
        Date::new(7, Month::May, 2007),
        Date::new(28, Month::May, 2007),
        Date::new(27, Month::August, 2007),
        Date::new(25, Month::December, 2007),
        Date::new(26, Month::December, 2007),
    ];

    let c = UnitedKingdom::metals();

    let hol = c.holiday_list(
        Date::new(1, Month::January, 2004),
        Date::new(31, Month::December, 2007),
        false,
    );

    assert!(
        hol.len() == expected_hol.len(),
        "there were {} expected holidays, while there are {} calculated holidays",
        expected_hol.len(),
        hol.len()
    );

    for i in 0..expected_hol.len() {
        assert!(
            hol[i] == expected_hol[i],
            "expected holiday was {:?} while calculated holiday is {:?}",
            expected_hol[i],
            hol[i]
        );
    }
}
