use rust_quantlib::currencies::america::{CADCurrency, USDCurrency};
use rust_quantlib::currencies::asia::{CNHCurrency, CNYCurrency, JPYCurrency};
use rust_quantlib::currencies::currency::Currency;
use rust_quantlib::currencies::europe::{EURCurrency, GBPCurrency};
use rust_quantlib::maths::rounding::{RoundingMethod, RoundingType};

#[test]
fn test_usd() {
    let c = USDCurrency::new();
    assert_eq!(c.fraction_symbol(), "\u{00a2}")
}

#[test]
fn test_jpy() {
    let c = JPYCurrency::new();
    assert_eq!(c.symbol(), "\u{00a5}")
}

#[test]
fn test_euro() {
    let c = EURCurrency::new();
    assert_eq!(c.symbol(), "\u{20ac}")
}

#[test]
fn currency_fields_follow_iso_4217() {
    let c = CADCurrency::new();
    assert_eq!(c.name(), "Canadian dollar");
    assert_eq!(c.code(), "CAD");
    assert_eq!(c.numeric_code(), 124);
    assert_eq!(c.symbol(), "Can$");
    assert_eq!(c.fraction_symbol(), "");
    assert_eq!(c.fractions_per_unit(), 100);
    assert!(c.triangulation_currency().is_none());
    assert!(c.minor_unit_codes().is_empty());
    let g = GBPCurrency::default();
    assert_eq!(g.code(), "GBP");
    assert_eq!(g.fraction_symbol(), "p");
    assert_eq!(g.minor_unit_codes(), vec!["GBp".to_owned(), "GBX".to_owned()]);
}

#[test]
fn euro_rounds_to_closest_cent() {
    let r = EURCurrency::new().rounding();
    assert_eq!(r.method, RoundingMethod::Closest);
    assert_eq!(r.precision, 2);
    assert_eq!(r.digit, 5);
    assert_eq!(USDCurrency::new().rounding(), RoundingType::none());
}

#[test]
fn currency_data_equality_goes_by_name() {
    let a = EURCurrency::new();
    let b = EURCurrency::new();
    assert!(a.data() == b.data());
    assert!(a.data() != USDCurrency::new().data());
}

use rust_quantlib::currencies::currency::CurrencyData;
use std::rc::Rc;

struct Triangulated {
    data: CurrencyData,
}

impl Currency for Triangulated {
    fn currency_data(&self) -> CurrencyData {
        self.data.clone()
    }

    fn data(&self) -> &CurrencyData {
        &self.data
    }
}

#[test]
fn triangulation_currency_shares_the_data() {
    let eur = EURCurrency::new().data().clone();
    let data = CurrencyData::new(
        "Test".to_owned(),
        "TST".to_owned(),
        999,
        "T".to_owned(),
        "".to_owned(),
        100,
        RoundingType::none(),
        Some(Rc::new(eur)),
        vec!["TSp".to_owned()],
    );
    let c = Triangulated { data };
    let t = c.triangulation_currency().unwrap();
    assert_eq!(t.code, "EUR");
    assert_eq!(c.minor_unit_codes(), vec!["TSp".to_owned()]);
    assert_eq!(c.name(), "Test");
}

#[test]
fn chinese_yuan_onshore_and_offshore() {
    let cny = CNYCurrency::new();
    assert_eq!(cny.name(), "Chinese yuan");
    assert_eq!(cny.code(), "CNY");
    assert_eq!(cny.numeric_code(), 156);
    assert_eq!(cny.fractions_per_unit(), 100);
    let cnh = CNHCurrency::default();
    assert_eq!(cnh.name(), "Chinese yuan (Hong Kong)");
    assert_eq!(cnh.code(), "CNH");
    assert_eq!(cnh.numeric_code(), 0);
    assert_ne!(cnh.numeric_code(), cny.numeric_code());
}
