use vstd::prelude::*;

use crate::currencies::currency::{Currency, CurrencyData};
use crate::maths::rounding::RoundingType;

verus! {

/// Australian dollar. The ISO three-letter code is AUD; the numeric code is 36.
/// It is divided into 100 cents.
#[derive(Debug, PartialEq)]
pub struct AUDCurrency {
    data: CurrencyData,
}

impl AUDCurrency {
    pub fn new() -> (r: AUDCurrency)
        ensures
            r.currency_data().describes("Australian dollar"@, "AUD"@, 36, "A$"@, ""@, 100, RoundingType::spec_none()),
    {
        Self {
            data: CurrencyData::new(
                "Australian dollar".to_owned(),
                "AUD".to_owned(),
                36,
                "A$".to_owned(),
                "".to_owned(),
                100,
                RoundingType::none(),
                None,
                Vec::new(),
            ),
        }
    }
}

impl Default for AUDCurrency {
    fn default() -> (r: Self)
        ensures
            r.currency_data().describes("Australian dollar"@, "AUD"@, 36, "A$"@, ""@, 100, RoundingType::spec_none()),
    {
        Self::new()
    }
}

impl Currency for AUDCurrency {
    closed spec fn currency_data(&self) -> CurrencyData {
        self.data
    }

    fn data(&self) -> (r: &CurrencyData) {
        &self.data
    }
}

/// New Zealand dollar. The ISO three-letter code is NZD; the numeric code is 554.
/// It is divided into 100 cents.
#[derive(Debug, PartialEq)]
pub struct NZDCurrency {
    data: CurrencyData,
}

impl NZDCurrency {
    pub fn new() -> (r: NZDCurrency)
        ensures
            r.currency_data().describes("New Zealand dollar"@, "NZD"@, 554, "NZ$"@, ""@, 100, RoundingType::spec_none()),
    {
        Self {
            data: CurrencyData::new(
                "New Zealand dollar".to_owned(),
                "NZD".to_owned(),
                554,
                "NZ$".to_owned(),
                "".to_owned(),
                100,
                RoundingType::none(),
                None,
                Vec::new(),
            ),
        }
    }
}

impl Default for NZDCurrency {
    fn default() -> (r: Self)
        ensures
            r.currency_data().describes("New Zealand dollar"@, "NZD"@, 554, "NZ$"@, ""@, 100, RoundingType::spec_none()),
    {
        Self::new()
    }
}

impl Currency for NZDCurrency {
    closed spec fn currency_data(&self) -> CurrencyData {
        self.data
    }

    fn data(&self) -> (r: &CurrencyData) {
        &self.data
    }
}

} // verus!
