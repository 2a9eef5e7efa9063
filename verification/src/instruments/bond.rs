use vstd::prelude::*;

verus! {

/// Whether a bond price is quoted clean (without accrued interest) or dirty.
#[derive(Clone, Copy, Debug, PartialEq, Eq, Structural, PartialOrd, Ord)]
pub enum BondPriceType {
    Clean,
    Dirty,
}

} // verus!
