#![allow(non_upper_case_globals)]
use vstd::prelude::*;
use vstd::std_specs::convert::FromSpecImpl;

verus! {

/// Months of the year.
#[derive(Clone, Copy, Debug, PartialEq, Eq, Structural, Hash, PartialOrd, Ord)]
pub enum Month {
    January,
    February,
    March,
    April,
    May,
    June,
    July,
    August,
    September,
    October,
    November,
    December,
}

impl Month {
    /// The number of the month, January being 1 and December 12.
    pub open spec fn number(self) -> int {
        match self {
            Month::January => 1,
            Month::February => 2,
            Month::March => 3,
            Month::April => 4,
            Month::May => 5,
            Month::June => 6,
            Month::July => 7,
            Month::August => 8,
            Month::September => 9,
            Month::October => 10,
            Month::November => 11,
            Month::December => 12,
        }
    }

    /// The month with the given number (1 to 12).
    pub open spec fn from_number(n: int) -> Month {
        if n <= 1 {
            Month::January
        } else if n == 2 {
            Month::February
        } else if n == 3 {
            Month::March
        } else if n == 4 {
            Month::April
        } else if n == 5 {
            Month::May
        } else if n == 6 {
            Month::June
        } else if n == 7 {
            Month::July
        } else if n == 8 {
            Month::August
        } else if n == 9 {
            Month::September
        } else if n == 10 {
            Month::October
        } else if n == 11 {
            Month::November
        } else {
            Month::December
        }
    }

    /// The number of the month as an integer, January being 1.
    pub fn to_integer(self) -> (r: i32)
        ensures
            r == self.number(),
            1 <= r <= 12,
    {
        match self {
            Month::January => 1,
            Month::February => 2,
            Month::March => 3,
            Month::April => 4,
            Month::May => 5,
            Month::June => 6,
            Month::July => 7,
            Month::August => 8,
            Month::September => 9,
            Month::October => 10,
            Month::November => 11,
            Month::December => 12,
        }
    }

    /// The number of the month as a natural number, January being 1.
    pub fn to_natural(self) -> (r: u32)
        ensures
            r == self.number(),
    {
        let n = self.to_integer();
        n as u32
    }

    /// The number of the month as a size, January being 1.
    pub fn to_size(self) -> (r: usize)
        ensures
            r == self.number(),
    {
        let n = self.to_integer();
        n as usize
    }

    /// The month with the given number; numbers outside 1 to 12 are refused.
    pub fn from_integer(n: i32) -> (r: Month)
        requires
            1 <= n <= 12,
        ensures
            r.number() == n,
            r == Month::from_number(n as int),
    {
        from_integral(n)
    }

    /// The month with the given natural number; numbers outside 1 to 12 are refused.
    pub fn from_natural(n: u32) -> (r: Month)
        requires
            1 <= n <= 12,
        ensures
            r.number() == n,
            r == Month::from_number(n as int),
    {
        from_integral(n as i32)
    }
}

/// Each month number names exactly one month and each month has one number.
pub proof fn lemma_month_number_roundtrip(m: Month, n: int)
    requires
        1 <= n <= 12,
    ensures
        Month::from_number(m.number()) == m,
        Month::from_number(n).number() == n,
        1 <= m.number() <= 12,
{
}

fn from_integral(n: i32) -> (r: Month)
    requires
        1 <= n <= 12,
    ensures
        r.number() == n,
        r == Month::from_number(n as int),
{
    match n {
        1 => Month::January,
        2 => Month::February,
        3 => Month::March,
        4 => Month::April,
        5 => Month::May,
        6 => Month::June,
        7 => Month::July,
        8 => Month::August,
        9 => Month::September,
        10 => Month::October,
        11 => Month::November,
        _ => Month::December,
    }
}


impl From<Month> for i32 {
    fn from(m: Month) -> (r: i32) {
        m.to_integer()
    }
}

impl FromSpecImpl<Month> for i32 {
    open spec fn obeys_from_spec() -> bool {
        true
    }

    open spec fn from_spec(v: Month) -> i32 {
        v.number() as i32
    }
}

impl From<Month> for u32 {
    fn from(m: Month) -> (r: u32) {
        m.to_natural()
    }
}

impl FromSpecImpl<Month> for u32 {
    open spec fn obeys_from_spec() -> bool {
        true
    }

    open spec fn from_spec(v: Month) -> u32 {
        v.number() as u32
    }
}

impl From<Month> for usize {
    fn from(m: Month) -> (r: usize) {
        m.to_size()
    }
}

impl FromSpecImpl<Month> for usize {
    open spec fn obeys_from_spec() -> bool {
        true
    }

    open spec fn from_spec(v: Month) -> usize {
        v.number() as usize
    }
}

/// January.
pub const Jan: Month = Month::January;
/// February.
pub const Feb: Month = Month::February;
/// March.
pub const Mar: Month = Month::March;
/// April.
pub const Apr: Month = Month::April;
/// June.
pub const Jun: Month = Month::June;
/// July.
pub const Jul: Month = Month::July;
/// August.
pub const Aug: Month = Month::August;
/// September.
pub const Sep: Month = Month::September;
/// October.
pub const Oct: Month = Month::October;
/// November.
pub const Nov: Month = Month::November;
/// December.
pub const Dec: Month = Month::December;

} // verus!
