use vstd::prelude::*;

use crate::currencies::currency::{Currency, CurrencyData};
use crate::maths::rounding::RoundingType;

verus! {

/// South-African rand. The ISO three-letter code is ZAR; the numeric code is 710.
/// It is divided into 100 cents.
#[derive(Debug, PartialEq)]
pub struct ZARCurrency {
    data: CurrencyData,
}

impl ZARCurrency {
    pub fn new() -> (r: ZARCurrency)
        ensures
            r.currency_data().describes("South-African rand"@, "ZAR"@, 710, "R"@, ""@, 100, RoundingType::spec_none()),
    {
        Self {
            data: CurrencyData::new(
                "South-African rand".to_owned(),
                "ZAR".to_owned(),
                710,
                "R".to_owned(),
                "".to_owned(),
                100,
                RoundingType::none(),
                None,
                Vec::new(),
            ),
        }
    }
}

impl Default for ZARCurrency {
    fn default() -> (r: Self)
        ensures
            r.currency_data().describes("South-African rand"@, "ZAR"@, 710, "R"@, ""@, 100, RoundingType::spec_none()),
    {
        Self::new()
    }
}

impl Currency for ZARCurrency {
    closed spec fn currency_data(&self) -> CurrencyData {
        self.data
    }

    fn data(&self) -> (r: &CurrencyData) {
        &self.data
    }
}

} // verus!
