use rust_quantlib::datetime::months::Month;

#[test]
fn test_month_conversions() {
    let jan: Month = Month::January;
    assert_eq!(jan, Month::January);

    // Check that we can convert the month to the corresponding integral type
    assert_eq!(i32::from(jan), 1);
    assert_eq!(u32::from(jan), 1);

    let _t: usize = jan.into();
    assert_eq!(_t, 1);
}

#[test]
fn month_numbers_round_trip() {
    for n in 1..=12 {
        let m = Month::from_integer(n);
        assert_eq!(m.to_integer(), n);
        assert_eq!(Month::from_natural(n as u32), m);
    }
    assert_eq!(Month::December.to_size(), 12);
}
