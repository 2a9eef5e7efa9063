use vstd::prelude::*;

use crate::datetime::date::Date;

verus! {

/// This structure holds contextual information necessary for pricing, such
/// as the evaluation date.
#[derive(Clone, Copy, Debug)]
pub struct PricingContext {
    pub eval_date: Date,
}

impl PricingContext {
    /// A context with the given evaluation date.
    pub fn new(eval_date: Date) -> (r: Self)
        ensures
            r.eval_date == eval_date,
    {
        PricingContext { eval_date }
    }
}

} // verus!
