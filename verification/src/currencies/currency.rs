use std::rc::Rc;
use vstd::prelude::*;

use crate::maths::rounding::RoundingType;

verus! {

/// Data associated with a currency.
///
/// The minor unit codes form a set: no code occurs twice (see [`CurrencyData::wf`]).
#[derive(Clone, Debug)]
pub struct CurrencyData {
    /// Currency name, e.g, "U.S. Dollar"
    pub name: String,
    /// ISO 4217 three-letter code, e.g, "USD"
    pub code: String,
    /// ISO 4217 numeric code, e.g, "840"
    pub numeric_code: i32,
    /// Symbol, e.g, "$"
    pub symbol: String,
    /// Fraction symbol, e.g, "¢"
    pub fraction_symbol: String,
    /// Number of fractionary parts in a unit, e.g, 100
    pub fractions_per_unit: i32,
    /// Rounding convention
    pub rounding: RoundingType,
    /// Currency used for triangulated exchange when required
    pub triangulation_currency: Option<Rc<CurrencyData>>,
    /// Minor unit codes, e.g. GBp, GBX for GBP
    pub minor_unit_codes: Vec<String>,
}

/// The texts of a list of codes.
pub open spec fn code_texts(codes: Seq<String>) -> Seq<Seq<char>> {
    codes.map_values(|c: String| c@)
}

/// No text occurs twice in the list.
pub open spec fn distinct_texts(codes: Seq<String>) -> bool {
    forall|i: int, j: int| 0 <= i < j < codes.len() ==> codes[i]@ != codes[j]@
}

impl CurrencyData {
    /// Well-formedness: the minor unit codes are a set.
    pub open spec fn wf(&self) -> bool {
        distinct_texts(self.minor_unit_codes@)
    }

    /// Whether this data has the given name, codes, symbols, fractions and rounding, and no
    /// triangulation currency.
    pub open spec fn has_fields(
        &self,
        name: Seq<char>,
        code: Seq<char>,
        numeric_code: int,
        symbol: Seq<char>,
        fraction_symbol: Seq<char>,
        fractions_per_unit: int,
        rounding: RoundingType,
    ) -> bool {
        &&& self.name@ == name
        &&& self.code@ == code
        &&& self.numeric_code == numeric_code
        &&& self.symbol@ == symbol
        &&& self.fraction_symbol@ == fraction_symbol
        &&& self.fractions_per_unit == fractions_per_unit
        &&& self.rounding == rounding
        &&& self.triangulation_currency is None
    }

    /// Whether this data has the given name, codes, symbols, fractions and rounding, no
    /// triangulation currency and no minor unit codes.
    pub open spec fn describes(
        &self,
        name: Seq<char>,
        code: Seq<char>,
        numeric_code: int,
        symbol: Seq<char>,
        fraction_symbol: Seq<char>,
        fractions_per_unit: int,
        rounding: RoundingType,
    ) -> bool {
        &&& self.has_fields(name, code, numeric_code, symbol, fraction_symbol, fractions_per_unit, rounding)
        &&& self.minor_unit_codes@.len() == 0
    }

    /// Whether this data has the given name, codes, symbols, fractions and rounding, no
    /// triangulation currency, and the given minor unit codes in this order.
    pub open spec fn describes_with_minor_units(
        &self,
        name: Seq<char>,
        code: Seq<char>,
        numeric_code: int,
        symbol: Seq<char>,
        fraction_symbol: Seq<char>,
        fractions_per_unit: int,
        rounding: RoundingType,
        minor_unit_codes: Seq<Seq<char>>,
    ) -> bool {
        &&& self.has_fields(name, code, numeric_code, symbol, fraction_symbol, fractions_per_unit, rounding)
        &&& code_texts(self.minor_unit_codes@) == minor_unit_codes
    }

    #[allow(clippy::too_many_arguments)]
    pub fn new(
        name: String,
        code: String,
        numeric_code: i32,
        symbol: String,
        fraction_symbol: String,
        fractions_per_unit: i32,
        rounding: RoundingType,
        triangulation_currency: Option<Rc<CurrencyData>>,
        minor_unit_codes: Vec<String>,
    ) -> (r: Self)
        requires
            distinct_texts(minor_unit_codes@),
        ensures
            r.wf(),
            r.name@ == name@,
            r.code@ == code@,
            r.numeric_code == numeric_code,
            r.symbol@ == symbol@,
            r.fraction_symbol@ == fraction_symbol@,
            r.fractions_per_unit == fractions_per_unit,
            r.rounding == rounding,
            r.triangulation_currency == triangulation_currency,
            r.minor_unit_codes@ == minor_unit_codes@,
    {
        Self {
            name,
            code,
            numeric_code,
            symbol,
            fraction_symbol,
            fractions_per_unit,
            rounding,
            triangulation_currency,
            minor_unit_codes,
        }
    }
}

/// Two currency data are equal when their names are.
impl PartialEq for CurrencyData {
    fn eq(&self, other: &Self) -> (r: bool) {
        self.name == other.name
    }
}

impl vstd::std_specs::cmp::PartialEqSpecImpl for CurrencyData {
    open spec fn obeys_eq_spec() -> bool {
        true
    }

    open spec fn eq_spec(&self, other: &Self) -> bool {
        self.name@ == other.name@
    }
}

/// A second handle on shared currency data.
///
/// Calls `Rc::clone`, which documents that the result points to the same allocation, so
/// it holds the same data.
#[verifier::external_body]
fn share_data(data: &Rc<CurrencyData>) -> (r: Rc<CurrencyData>)
    ensures
        *r == **data,
{
    Rc::clone(data)
}

/// Currency specification
pub trait Currency {
    /// The data this currency is described by.
    spec fn currency_data(&self) -> CurrencyData;

    fn data(&self) -> (r: &CurrencyData)
        ensures
            *r == self.currency_data(),
    ;

    /// Currency name, e.g, "U.S. Dollar"
    fn name(&self) -> (r: &str)
        ensures
            r@ == self.currency_data().name@,
    {
        self.data().name.as_str()
    }

    /// ISO 4217 three-letter code, e.g, "USD"
    fn code(&self) -> (r: &str)
        ensures
            r@ == self.currency_data().code@,
    {
        self.data().code.as_str()
    }

    /// ISO 4217 numeric code, e.g, "840"
    fn numeric_code(&self) -> (r: i32)
        ensures
            r == self.currency_data().numeric_code,
    {
        self.data().numeric_code
    }

    /// Symbol, e.g, "$"
    fn symbol(&self) -> (r: &str)
        ensures
            r@ == self.currency_data().symbol@,
    {
        self.data().symbol.as_str()
    }

    /// Fraction symbol, e.g, "¢"
    fn fraction_symbol(&self) -> (r: &str)
        ensures
            r@ == self.currency_data().fraction_symbol@,
    {
        self.data().fraction_symbol.as_str()
    }

    /// Number of fractionary parts in a unit, e.g, 100
    fn fractions_per_unit(&self) -> (r: i32)
        ensures
            r == self.currency_data().fractions_per_unit,
    {
        self.data().fractions_per_unit
    }

    /// Rounding convention
    fn rounding(&self) -> (r: RoundingType)
        ensures
            r == self.currency_data().rounding,
    {
        self.data().rounding
    }

    /// Currency used for triangulated exchange when required
    fn triangulation_currency(&self) -> (r: Option<Rc<CurrencyData>>)
        ensures
            r == self.currency_data().triangulation_currency,
    {
        match &self.data().triangulation_currency {
            Some(data) => Some(share_data(data)),
            None => None,
        }
    }

    /// Minor unit codes, e.g. GBp, GBX for GBP
    fn minor_unit_codes(&self) -> (r: Vec<String>)
        ensures
            code_texts(r@) == code_texts(self.currency_data().minor_unit_codes@),
    {
        let codes = self.data().minor_unit_codes.clone();
        proof {
            let src = self.currency_data().minor_unit_codes@;
            assert forall|i: int| 0 <= i < codes@.len() implies codes@[i]@ == src[i]@ by {
                assert(cloned::<String>(src[i], codes@[i]));
            }
            assert(code_texts(codes@) =~= code_texts(src));
        }
        codes
    }
}

} // verus!
