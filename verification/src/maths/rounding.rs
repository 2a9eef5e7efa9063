use vstd::prelude::*;

verus! {

/// How an amount is rounded.
#[derive(Clone, Copy, Debug, PartialEq, Eq, Structural)]
pub enum RoundingMethod {
    /// No rounding.
    NoRounding,
    /// Round away from zero.
    Up,
    /// Round towards zero.
    Down,
    /// Round to the closest value; `digit` decides the ties.
    Closest,
    /// Round towards minus infinity.
    Floor,
    /// Round towards plus infinity.
    Ceiling,
}

/// A rounding convention: a method, a number of decimal places and the digit from which
/// values are rounded up.
#[derive(Clone, Copy, Debug, PartialEq, Eq, Structural)]
pub struct RoundingType {
    pub method: RoundingMethod,
    pub precision: i32,
    pub digit: i32,
}

/// Rounding conventions go by this name too.
pub type Rounding = RoundingType;

impl RoundingType {
    /// The convention that leaves amounts as they are.
    pub open spec fn spec_none() -> RoundingType {
        RoundingType { method: RoundingMethod::NoRounding, precision: 0, digit: 5 }
    }

    /// No rounding.
    pub fn none() -> (r: RoundingType)
        ensures
            r == Self::spec_none(),
    {
        RoundingType { method: RoundingMethod::NoRounding, precision: 0, digit: 5 }
    }

    /// Rounding to the closest value with `precision` decimal places, where a first
    /// dropped digit of `digit` or more rounds up.
    pub fn closest(precision: i32, digit: i32) -> (r: RoundingType)
        ensures
            r.method == RoundingMethod::Closest,
            r.precision == precision,
            r.digit == digit,
    {
        RoundingType { method: RoundingMethod::Closest, precision, digit }
    }
}

} // verus!
