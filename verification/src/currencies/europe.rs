use vstd::prelude::*;

use crate::currencies::currency::{code_texts, Currency, CurrencyData};
use crate::maths::rounding::{RoundingMethod, RoundingType};

verus! {

/// Swiss Franc. The ISO three-letter code is CHF; the numeric code is 756.
/// It is divided into 100 cents.
#[derive(Debug, PartialEq)]
pub struct CHFCurrency {
    data: CurrencyData,
}

impl CHFCurrency {
    pub fn new() -> (r: CHFCurrency)
        ensures
            r.currency_data().describes("Swiss franc"@, "CHF"@, 756, "SwF"@, ""@, 100, RoundingType::spec_none()),
    {
        Self {
            data: CurrencyData::new(
                "Swiss franc".to_owned(),
                "CHF".to_owned(),
                756,
                "SwF".to_owned(),
                "".to_owned(),
                100,
                RoundingType::none(),
                None,
                Vec::new(),
            ),
        }
    }
}

impl Default for CHFCurrency {
    fn default() -> (r: Self)
        ensures
            r.currency_data().describes("Swiss franc"@, "CHF"@, 756, "SwF"@, ""@, 100, RoundingType::spec_none()),
    {
        Self::new()
    }
}

impl Currency for CHFCurrency {
    closed spec fn currency_data(&self) -> CurrencyData {
        self.data
    }

    fn data(&self) -> (r: &CurrencyData) {
        &self.data
    }
}

/// European Euro. The ISO three-letter code is EUR; the numeric code is 978.
/// It is divided into 100 cents.
#[derive(Debug, PartialEq)]
pub struct EURCurrency {
    data: CurrencyData,
}

impl EURCurrency {
    pub fn new() -> (r: EURCurrency)
        ensures
            r.currency_data().describes("European Euro"@, "EUR"@, 978, "\u{20ac}"@, ""@, 100, (RoundingType { method: RoundingMethod::Closest, precision: 2, digit: 5 })),
    {
        Self {
            data: CurrencyData::new(
                "European Euro".to_owned(),
                "EUR".to_owned(),
                978,
                "\u{20ac}".to_owned(),
                "".to_owned(),
                100,
                RoundingType::closest(2, 5),
                None,
                Vec::new(),
            ),
        }
    }
}

impl Default for EURCurrency {
    fn default() -> (r: Self)
        ensures
            r.currency_data().describes("European Euro"@, "EUR"@, 978, "\u{20ac}"@, ""@, 100, (RoundingType { method: RoundingMethod::Closest, precision: 2, digit: 5 })),
    {
        Self::new()
    }
}

impl Currency for EURCurrency {
    closed spec fn currency_data(&self) -> CurrencyData {
        self.data
    }

    fn data(&self) -> (r: &CurrencyData) {
        &self.data
    }
}

/// British pound sterling. The ISO three-letter code is GBP; the numeric code is 826.
/// It is divided into 100 pence.
#[derive(Debug, PartialEq)]
pub struct GBPCurrency {
    data: CurrencyData,
}

impl GBPCurrency {
    pub fn new() -> (r: GBPCurrency)
        ensures
            r.currency_data().describes_with_minor_units(
                "British pound sterling"@,
                "GBP"@,
                826,
                "\u{00A3}"@,
                "p"@,
                100,
                RoundingType::spec_none(),
                seq!["GBp"@, "GBX"@],
            ),
    {
        let minor_codes = vec!["GBp".to_owned(), "GBX".to_owned()];
        proof {
            reveal_strlit("GBp");
            reveal_strlit("GBX");
            assert("GBp"@[2] != "GBX"@[2]);
            assert(code_texts(minor_codes@) =~= seq!["GBp"@, "GBX"@]);
        }
        Self {
            data: CurrencyData::new(
                "British pound sterling".to_owned(),
                "GBP".to_owned(),
                826,
                "\u{00A3}".to_owned(),
                "p".to_owned(),
                100,
                RoundingType::none(),
                None,
                minor_codes,
            ),
        }
    }
}

impl Default for GBPCurrency {
    fn default() -> (r: Self)
        ensures
            r.currency_data().describes_with_minor_units(
                "British pound sterling"@,
                "GBP"@,
                826,
                "\u{00A3}"@,
                "p"@,
                100,
                RoundingType::spec_none(),
                seq!["GBp"@, "GBX"@],
            ),
    {
        Self::new()
    }
}

impl Currency for GBPCurrency {
    closed spec fn currency_data(&self) -> CurrencyData {
        self.data
    }

    fn data(&self) -> (r: &CurrencyData) {
        &self.data
    }
}

/// Norwegian krone. The ISO three-letter code is NOK; the numeric code is 578.
/// It is divided into 100 øre.
#[derive(Debug, PartialEq)]
pub struct NOKCurrency {
    data: CurrencyData,
}

impl NOKCurrency {
    pub fn new() -> (r: NOKCurrency)
        ensures
            r.currency_data().describes("Norwegian krone"@, "NOK"@, 578, "NKr"@, ""@, 100, RoundingType::spec_none()),
    {
        Self {
            data: CurrencyData::new(
                "Norwegian krone".to_owned(),
                "NOK".to_owned(),
                578,
                "NKr".to_owned(),
                "".to_owned(),
                100,
                RoundingType::none(),
                None,
                Vec::new(),
            ),
        }
    }
}

impl Default for NOKCurrency {
    fn default() -> (r: Self)
        ensures
            r.currency_data().describes("Norwegian krone"@, "NOK"@, 578, "NKr"@, ""@, 100, RoundingType::spec_none()),
    {
        Self::new()
    }
}

impl Currency for NOKCurrency {
    closed spec fn currency_data(&self) -> CurrencyData {
        self.data
    }

    fn data(&self) -> (r: &CurrencyData) {
        &self.data
    }
}

/// Swedish krona. The ISO three-letter code is SEK; the numeric code is 752.
/// It is divided into 100 öre.
#[derive(Debug, PartialEq)]
pub struct SEKCurrency {
    data: CurrencyData,
}

impl SEKCurrency {
    pub fn new() -> (r: SEKCurrency)
        ensures
            r.currency_data().describes("Swedish krona"@, "SEK"@, 752, "kr"@, ""@, 100, RoundingType::spec_none()),
    {
        Self {
            data: CurrencyData::new(
                "Swedish krona".to_owned(),
                "SEK".to_owned(),
                752,
                "kr".to_owned(),
                "".to_owned(),
                100,
                RoundingType::none(),
                None,
                Vec::new(),
            ),
        }
    }
}

impl Default for SEKCurrency {
    fn default() -> (r: Self)
        ensures
            r.currency_data().describes("Swedish krona"@, "SEK"@, 752, "kr"@, ""@, 100, RoundingType::spec_none()),
    {
        Self::new()
    }
}

impl Currency for SEKCurrency {
    closed spec fn currency_data(&self) -> CurrencyData {
        self.data
    }

    fn data(&self) -> (r: &CurrencyData) {
        &self.data
    }
}

} // verus!
