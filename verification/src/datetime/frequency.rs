use vstd::prelude::*;
use vstd::std_specs::convert::FromSpecImpl;

verus! {

/// Frequency of events, numbered by how many times they happen in a year.
#[derive(Clone, Copy, Debug, PartialEq, Eq, Structural)]
pub enum Frequency {
    /// no frequency (number -1)
    NoFrequency,
    /// only once, e.g., a zero-coupon (number 0)
    Once,
    /// once a year
    Annual,
    /// twice a year
    Semiannual,
    /// every fourth month
    EveryFourthMonth,
    /// every third month
    Quarterly,
    /// every second month
    Bimonthly,
    /// once a month
    Monthly,
    /// every fourth week
    EveryFourthWeek,
    /// every second week
    Biweekly,
    /// once a week
    Weekly,
    /// once a day
    Daily,
    /// some other unknown frequency (number 999)
    OtherFrequency,
}

impl Frequency {
    /// The number of events per year that the frequency stands for.
    pub open spec fn number(self) -> int {
        match self {
            Frequency::NoFrequency => -1,
            Frequency::Once => 0,
            Frequency::Annual => 1,
            Frequency::Semiannual => 2,
            Frequency::EveryFourthMonth => 3,
            Frequency::Quarterly => 4,
            Frequency::Bimonthly => 6,
            Frequency::Monthly => 12,
            Frequency::EveryFourthWeek => 13,
            Frequency::Biweekly => 26,
            Frequency::Weekly => 52,
            Frequency::Daily => 365,
            Frequency::OtherFrequency => 999,
        }
    }

    /// Numbers that can be turned into a frequency: those of the frequencies from
    /// `Annual` to `Daily`.
    pub open spec fn is_convertible_number(n: int) -> bool {
        n == 1 || n == 2 || n == 3 || n == 4 || n == 6 || n == 12 || n == 13 || n == 26 || n
            == 52 || n == 365
    }

    /// The number of events per year.
    pub fn to_integer(self) -> (r: i32)
        ensures
            r == self.number(),
    {
        match self {
            Frequency::NoFrequency => -1,
            Frequency::Once => 0,
            Frequency::Annual => 1,
            Frequency::Semiannual => 2,
            Frequency::EveryFourthMonth => 3,
            Frequency::Quarterly => 4,
            Frequency::Bimonthly => 6,
            Frequency::Monthly => 12,
            Frequency::EveryFourthWeek => 13,
            Frequency::Biweekly => 26,
            Frequency::Weekly => 52,
            Frequency::Daily => 365,
            Frequency::OtherFrequency => 999,
        }
    }

    /// The frequency with the given number of events per year; only the numbers of the
    /// frequencies from `Annual` to `Daily` are accepted.
    pub fn from_integer(n: i32) -> (r: Frequency)
        requires
            Frequency::is_convertible_number(n as int),
        ensures
            r.number() == n,
    {
        match n {
            1 => Frequency::Annual,
            2 => Frequency::Semiannual,
            3 => Frequency::EveryFourthMonth,
            4 => Frequency::Quarterly,
            6 => Frequency::Bimonthly,
            12 => Frequency::Monthly,
            13 => Frequency::EveryFourthWeek,
            26 => Frequency::Biweekly,
            52 => Frequency::Weekly,
            _ => Frequency::Daily,
        }
    }
}

impl From<Frequency> for i32 {
    fn from(f: Frequency) -> (r: i32) {
        f.to_integer()
    }
}

impl FromSpecImpl<Frequency> for i32 {
    open spec fn obeys_from_spec() -> bool {
        true
    }

    open spec fn from_spec(v: Frequency) -> i32 {
        v.number() as i32
    }
}

} // verus!
