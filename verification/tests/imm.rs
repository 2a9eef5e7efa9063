use rust_quantlib::context::pricing_context::PricingContext;
use rust_quantlib::datetime::date::Date;
use rust_quantlib::datetime::imm::IMM;
use rust_quantlib::datetime::months::Month;

#[test]
fn test_is_imm_code() {
    let code = "H3";
    let imm = IMM::new(PricingContext {
        eval_date: Date::default(),
    });
    assert!(imm.is_imm_code(code, true));
}

#[test]
fn test_code() {
    let date = Date::new(20, Month::March, 2013);
    let imm = IMM::new(PricingContext {
        eval_date: Date::default(),
    });
    let code = imm.code(&date);
    assert_eq!(code, "H3".to_string());
}

#[test]
fn test_date() {
    let imm = IMM::new(PricingContext {
        eval_date: Date::new(30, Month::November, 2023),
    });
    let date = imm.date("H4", &Date::default());
    assert_eq!(date, Date::new(20, Month::March, 2024));
}

#[test]
fn test_imm_dates() {
    let imm_codes = [
        "F0", "G0", "H0", "J0", "K0", "M0", "N0", "Q0", "U0", "V0", "X0", "Z0", "F1", "G1", "H1",
        "J1", "K1", "M1", "N1", "Q1", "U1", "V1", "X1", "Z1", "F2", "G2", "H2", "J2", "K2", "M2",
        "N2", "Q2", "U2", "V2", "X2", "Z2", "F3", "G3", "H3", "J3", "K3", "M3", "N3", "Q3", "U3",
        "V3", "X3", "Z3", "F4", "G4", "H4", "J4", "K4", "M4", "N4", "Q4", "U4", "V4", "X4", "Z4",
        "F5", "G5", "H5", "J5", "K5", "M5", "N5", "Q5", "U5", "V5", "X5", "Z5", "F6", "G6", "H6",
        "J6", "K6", "M6", "N6", "Q6", "U6", "V6", "X6", "Z6", "F7", "G7", "H7", "J7", "K7", "M7",
        "N7", "Q7", "U7", "V7", "X7", "Z7", "F8", "G8", "H8", "J8", "K8", "M8", "N8", "Q8", "U8",
        "V8", "X8", "Z8", "F9", "G9", "H9", "J9", "K9", "M9", "N9", "Q9", "U9", "V9", "X9", "Z9",
    ];

    let imm = IMM::new(PricingContext {
        eval_date: Date::new(1, Month::January, 2020),
    });

    let mut counter = Date::new(1, Month::January, 2000);
    let last = Date::new(1, Month::January, 2040);

    while counter <= last {
        let imm_date = imm.next_date(&counter, false);
        assert!(
            imm_date > counter,
            "{:?} {:?} is not greater than {:?} {:?}",
            imm_date.weekday(),
            imm_date,
            counter.weekday(),
            counter
        );

        // check that imm is an IMM date
        assert!(
            imm.is_imm_date(&imm_date, false),
            "{:?} {:?} is not an IMM date (calculated from {:?} {:?})",
            imm_date.weekday(),
            imm_date,
            counter.weekday(),
            counter
        );

        // check that imm is <= to the next IMM date in the main cycle
        assert!(
            imm_date <= imm.next_date(&counter, true),
            "{:?} {:?} is not less than or equal to the next future in the main cycle {:?}",
            imm_date.weekday(),
            imm_date,
            imm.next_date(&counter, true)
        );

        // check that for every date IMMdate is the inverse of IMMcode
        let imm_code = imm.code(&imm_date);
        let date = imm.date(&imm_code, &counter);
        assert_eq!(
            date, imm_date,
            "{}, at calendar day {:?} is not the IMM code matching {:?}",
            imm_code, counter, imm_date
        );

        // check that for every date the 120 IMM codes refer to future dates
        for imm_code in imm_codes.iter().take(40) {
            let imm_date = imm.date(imm_code, &counter);
            assert!(
                imm_date >= counter,
                "{:?} is wrong for {} at reference date {:?}",
                imm_date,
                imm_code,
                counter
            );
        }

        counter.add_assign_days(1);
    }
}

#[test]
fn imm_codes_name_the_month_and_year() {
    let imm = IMM::new(PricingContext {
        eval_date: Date::new(1, Month::January, 2020),
    });
    assert!(!imm.is_imm_code("A3", false));
    assert!(!imm.is_imm_code("F3", true));
    assert!(imm.is_imm_code("F3", false));
    assert!(!imm.is_imm_code("H", false));
    assert_eq!(imm.next_code(&Date::new(1, Month::January, 2020), true), "H0");
    assert_eq!(
        imm.next_date(&Date::new(18, Month::March, 2020), true),
        Date::new(17, Month::June, 2020)
    );
    assert!(imm.is_imm_date(&Date::new(18, Month::March, 2020), true));
    assert!(!imm.is_imm_date(&Date::new(19, Month::March, 2020), true));
}

#[test]
fn no_imm_date_lies_before_the_next_one() {
    let imm = IMM::new(PricingContext {
        eval_date: Date::default(),
    });
    let start = Date::new(1, Month::January, 2023);
    for main_cycle in [false, true] {
        let next = imm.next_date(&start, main_cycle);
        let mut d = start.add_days(1);
        while d < next {
            assert!(!imm.is_imm_date(&d, main_cycle));
            d = d.add_days(1);
        }
        assert!(imm.is_imm_date(&next, main_cycle));
    }
    assert_eq!(imm.next_date(&start, false), Date::new(18, Month::January, 2023));
    assert_eq!(imm.next_date(&start, true), Date::new(15, Month::March, 2023));
}
