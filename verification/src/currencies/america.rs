use vstd::prelude::*;

use crate::currencies::currency::{Currency, CurrencyData};
use crate::maths::rounding::RoundingType;

verus! {

/// Canadian dollar. The ISO three-letter code is CAD; the numeric code is 124.
/// It is divided into 100 cents.
#[derive(Debug, PartialEq)]
pub struct CADCurrency {
    data: CurrencyData,
}

impl CADCurrency {
    pub fn new() -> (r: CADCurrency)
        ensures
            r.currency_data().describes("Canadian dollar"@, "CAD"@, 124, "Can$"@, ""@, 100, RoundingType::spec_none()),
    {
        Self {
            data: CurrencyData::new(
                "Canadian dollar".to_owned(),
                "CAD".to_owned(),
                124,
                "Can$".to_owned(),
                "".to_owned(),
                100,
                RoundingType::none(),
                None,
                Vec::new(),
            ),
        }
    }
}

impl Default for CADCurrency {
    fn default() -> (r: Self)
        ensures
            r.currency_data().describes("Canadian dollar"@, "CAD"@, 124, "Can$"@, ""@, 100, RoundingType::spec_none()),
    {
        Self::new()
    }
}

impl Currency for CADCurrency {
    closed spec fn currency_data(&self) -> CurrencyData {
        self.data
    }

    fn data(&self) -> (r: &CurrencyData) {
        &self.data
    }
}

/// U.S. dollar. The ISO three-letter code is USD; the numeric code is 840.
/// It is divided into 100 cents.
#[derive(Debug, PartialEq)]
pub struct USDCurrency {
    data: CurrencyData,
}

impl USDCurrency {
    pub fn new() -> (r: USDCurrency)
        ensures
            r.currency_data().describes("U.S. dollar"@, "USD"@, 840, "$"@, "\u{00a2}"@, 100, RoundingType::spec_none()),
    {
        Self {
            data: CurrencyData::new(
                "U.S. dollar".to_owned(),
                "USD".to_owned(),
                840,
                "$".to_owned(),
                "\u{00a2}".to_owned(),
                100,
                RoundingType::none(),
                None,
                Vec::new(),
            ),
        }
    }
}

impl Default for USDCurrency {
    fn default() -> (r: Self)
        ensures
            r.currency_data().describes("U.S. dollar"@, "USD"@, 840, "$"@, "\u{00a2}"@, 100, RoundingType::spec_none()),
    {
        Self::new()
    }
}

impl Currency for USDCurrency {
    closed spec fn currency_data(&self) -> CurrencyData {
        self.data
    }

    fn data(&self) -> (r: &CurrencyData) {
        &self.data
    }
}

} // verus!
