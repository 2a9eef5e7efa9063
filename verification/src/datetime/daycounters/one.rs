use vstd::prelude::*;

use crate::datetime::date::Date;

verus! {

/// 1/1 day count convention
#[derive(Clone, Copy, Debug, Default)]
pub struct One {}

impl One {
    pub fn new() -> Self {
        One {}
    }

    pub fn name(&self) -> (r: String)
        ensures
            r@ == "1/1"@,
    {
        "1/1".to_owned()
    }

    /// 1 when the second date is not before the first, -1 otherwise.
    pub fn day_count(&self, d1: &Date, d2: &Date) -> (r: i32)
        ensures
            r == (if d2@ >= d1@ {
                1int
            } else {
                -1int
            }),
    {
        if d2 >= d1 {
            1
        } else {
            -1
        }
    }
}

} // verus!
