use vstd::prelude::*;

use crate::datetime::date::{ymd_of_serial, Date};

verus! {

/// 30/365 day count convention
#[derive(Clone, Copy, Debug)]
pub struct Thirty365 {}

/// 30/365 day count between the dates with serial numbers `s1` and `s2`: 360 days per year
/// of difference, 30 per month, plus the difference of the days of month.
pub open spec fn thirty365_day_count(s1: int, s2: int) -> int {
    let (y1, m1, d1) = ymd_of_serial(s1);
    let (y2, m2, d2) = ymd_of_serial(s2);
    360 * (y2 - y1) + 30 * (m2 - m1) + (d2 - d1)
}

impl Default for Thirty365 {
    fn default() -> Self {
        Self::new()
    }
}

impl Thirty365 {
    pub fn new() -> Self {
        Thirty365 {}
    }

    pub fn name(&self) -> (r: String)
        ensures
            r@ == "30/365"@,
    {
        "30/365".to_owned()
    }

    /// Returns the number of days between two dates.
    pub fn day_count(&self, d1: &Date, d2: &Date) -> (r: i32)
        ensures
            r == thirty365_day_count(d1@, d2@),
    {
        let dd1 = d1.day_of_month();
        let dd2 = d2.day_of_month();
        let mm1 = d1.month().to_integer();
        let mm2 = d2.month().to_integer();
        let yy1 = d1.year();
        let yy2 = d2.year();

        360 * (yy2 - yy1) + 30 * (mm2 - mm1) + (dd2 as i32 - dd1 as i32)
    }
}

} // verus!
