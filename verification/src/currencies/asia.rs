use vstd::prelude::*;

use crate::currencies::currency::{Currency, CurrencyData};
use crate::maths::rounding::RoundingType;

verus! {

/// Chinese yuan. The ISO three-letter code is CNY; the numeric code is 156.
/// It is divided into 100 fen.
#[derive(Debug, PartialEq)]
pub struct CNYCurrency {
    data: CurrencyData,
}

impl CNYCurrency {
    pub fn new() -> (r: CNYCurrency)
        ensures
            r.currency_data().describes("Chinese yuan"@, "CNY"@, 156, "Y"@, ""@, 100, RoundingType::spec_none()),
    {
        Self {
            data: CurrencyData::new(
                "Chinese yuan".to_owned(),
                "CNY".to_owned(),
                156,
                "Y".to_owned(),
                "".to_owned(),
                100,
                RoundingType::none(),
                None,
                Vec::new(),
            ),
        }
    }
}

impl Default for CNYCurrency {
    fn default() -> (r: Self)
        ensures
            r.currency_data().describes("Chinese yuan"@, "CNY"@, 156, "Y"@, ""@, 100, RoundingType::spec_none()),
    {
        Self::new()
    }
}

impl Currency for CNYCurrency {
    closed spec fn currency_data(&self) -> CurrencyData {
        self.data
    }

    fn data(&self) -> (r: &CurrencyData) {
        &self.data
    }
}

/// Hong Kong dollar. The ISO three-letter code is HKD; the numeric code is 344.
/// It is divided into 100 cents.
#[derive(Debug, PartialEq)]
pub struct HKDCurrency {
    data: CurrencyData,
}

impl HKDCurrency {
    pub fn new() -> (r: HKDCurrency)
        ensures
            r.currency_data().describes("Hong Kong dollar"@, "HKD"@, 344, "HK$"@, ""@, 100, RoundingType::spec_none()),
    {
        Self {
            data: CurrencyData::new(
                "Hong Kong dollar".to_owned(),
                "HKD".to_owned(),
                344,
                "HK$".to_owned(),
                "".to_owned(),
                100,
                RoundingType::none(),
                None,
                Vec::new(),
            ),
        }
    }
}

impl Default for HKDCurrency {
    fn default() -> (r: Self)
        ensures
            r.currency_data().describes("Hong Kong dollar"@, "HKD"@, 344, "HK$"@, ""@, 100, RoundingType::spec_none()),
    {
        Self::new()
    }
}

impl Currency for HKDCurrency {
    closed spec fn currency_data(&self) -> CurrencyData {
        self.data
    }

    fn data(&self) -> (r: &CurrencyData) {
        &self.data
    }
}

/// Japanese yen. The ISO three-letter code is JPY; the numeric code is 392.
/// It is divided into 100 sen.
#[derive(Debug, PartialEq)]
pub struct JPYCurrency {
    data: CurrencyData,
}

impl JPYCurrency {
    pub fn new() -> (r: JPYCurrency)
        ensures
            r.currency_data().describes("Japanese yen"@, "JPY"@, 392, "\u{00A5}"@, ""@, 100, RoundingType::spec_none()),
    {
        Self {
            data: CurrencyData::new(
                "Japanese yen".to_owned(),
                "JPY".to_owned(),
                392,
                "\u{00A5}".to_owned(),
                "".to_owned(),
                100,
                RoundingType::none(),
                None,
                Vec::new(),
            ),
        }
    }
}

impl Default for JPYCurrency {
    fn default() -> (r: Self)
        ensures
            r.currency_data().describes("Japanese yen"@, "JPY"@, 392, "\u{00A5}"@, ""@, 100, RoundingType::spec_none()),
    {
        Self::new()
    }
}

impl Currency for JPYCurrency {
    closed spec fn currency_data(&self) -> CurrencyData {
        self.data
    }

    fn data(&self) -> (r: &CurrencyData) {
        &self.data
    }
}

/// South-Korean won. The ISO three-letter code is KRW; the numeric code is 410.
/// It is divided into 100 chon.
#[derive(Debug, PartialEq)]
pub struct KRWCurrency {
    data: CurrencyData,
}

impl KRWCurrency {
    pub fn new() -> (r: KRWCurrency)
        ensures
            r.currency_data().describes("South-Korean won"@, "KRW"@, 410, "W"@, ""@, 100, RoundingType::spec_none()),
    {
        Self {
            data: CurrencyData::new(
                "South-Korean won".to_owned(),
                "KRW".to_owned(),
                410,
                "W".to_owned(),
                "".to_owned(),
                100,
                RoundingType::none(),
                None,
                Vec::new(),
            ),
        }
    }
}

impl Default for KRWCurrency {
    fn default() -> (r: Self)
        ensures
            r.currency_data().describes("South-Korean won"@, "KRW"@, 410, "W"@, ""@, 100, RoundingType::spec_none()),
    {
        Self::new()
    }
}

impl Currency for KRWCurrency {
    closed spec fn currency_data(&self) -> CurrencyData {
        self.data
    }

    fn data(&self) -> (r: &CurrencyData) {
        &self.data
    }
}

/// Saudi riyal. The ISO three-letter code is SAR; the numeric code is 682.
/// It is divided into 100 halalat.
#[derive(Debug, PartialEq)]
pub struct SARCurrency {
    data: CurrencyData,
}

impl SARCurrency {
    pub fn new() -> (r: SARCurrency)
        ensures
            r.currency_data().describes("Saudi riyal"@, "SAR"@, 682, "SRls"@, ""@, 100, RoundingType::spec_none()),
    {
        Self {
            data: CurrencyData::new(
                "Saudi riyal".to_owned(),
                "SAR".to_owned(),
                682,
                "SRls".to_owned(),
                "".to_owned(),
                100,
                RoundingType::none(),
                None,
                Vec::new(),
            ),
        }
    }
}

impl Default for SARCurrency {
    fn default() -> (r: Self)
        ensures
            r.currency_data().describes("Saudi riyal"@, "SAR"@, 682, "SRls"@, ""@, 100, RoundingType::spec_none()),
    {
        Self::new()
    }
}

impl Currency for SARCurrency {
    closed spec fn currency_data(&self) -> CurrencyData {
        self.data
    }

    fn data(&self) -> (r: &CurrencyData) {
        &self.data
    }
}

/// Singapore dollar. The ISO three-letter code is SGD; the numeric code is 702.
/// It is divided into 100 cents.
#[derive(Debug, PartialEq)]
pub struct SGDCurrency {
    data: CurrencyData,
}

impl SGDCurrency {
    pub fn new() -> (r: SGDCurrency)
        ensures
            r.currency_data().describes("Singapore dollar"@, "SGD"@, 702, "S$"@, ""@, 100, RoundingType::spec_none()),
    {
        Self {
            data: CurrencyData::new(
                "Singapore dollar".to_owned(),
                "SGD".to_owned(),
                702,
                "S$".to_owned(),
                "".to_owned(),
                100,
                RoundingType::none(),
                None,
                Vec::new(),
            ),
        }
    }
}

impl Default for SGDCurrency {
    fn default() -> (r: Self)
        ensures
            r.currency_data().describes("Singapore dollar"@, "SGD"@, 702, "S$"@, ""@, 100, RoundingType::spec_none()),
    {
        Self::new()
    }
}

impl Currency for SGDCurrency {
    closed spec fn currency_data(&self) -> CurrencyData {
        self.data
    }

    fn data(&self) -> (r: &CurrencyData) {
        &self.data
    }
}

/// Chinese yuan (Hong Kong). The ISO three-letter code is CNH; there is no numeric code, which
/// the numeric code 0 stands for.
/// It is divided into 100 fen.
#[derive(Debug, PartialEq)]
pub struct CNHCurrency {
    data: CurrencyData,
}

impl CNHCurrency {
    pub fn new() -> (r: CNHCurrency)
        ensures
            r.currency_data().describes("Chinese yuan (Hong Kong)"@, "CNH"@, 0, "CNH"@, ""@, 100, RoundingType::spec_none()),
    {
        Self {
            data: CurrencyData::new(
                "Chinese yuan (Hong Kong)".to_owned(),
                "CNH".to_owned(),
                0,
                "CNH".to_owned(),
                "".to_owned(),
                100,
                RoundingType::none(),
                None,
                Vec::new(),
            ),
        }
    }
}

impl Default for CNHCurrency {
    fn default() -> (r: Self)
        ensures
            r.currency_data().describes("Chinese yuan (Hong Kong)"@, "CNH"@, 0, "CNH"@, ""@, 100, RoundingType::spec_none()),
    {
        Self::new()
    }
}

impl Currency for CNHCurrency {
    closed spec fn currency_data(&self) -> CurrencyData {
        self.data
    }

    fn data(&self) -> (r: &CurrencyData) {
        &self.data
    }
}

} // verus!
