use vstd::prelude::*;
use vstd::std_specs::convert::FromSpecImpl;

verus! {

/// Days of the week, numbered from Sunday (1) to Saturday (7).
#[derive(Clone, Copy, Debug, PartialEq, Eq, Structural, Hash)]
pub enum Weekday {
    Sunday,
    Monday,
    Tuesday,
    Wednesday,
    Thursday,
    Friday,
    Saturday,
}

impl Weekday {
    /// The number of the weekday, Sunday being 1 and Saturday 7.
    pub open spec fn number(self) -> int {
        match self {
            Weekday::Sunday => 1,
            Weekday::Monday => 2,
            Weekday::Tuesday => 3,
            Weekday::Wednesday => 4,
            Weekday::Thursday => 5,
            Weekday::Friday => 6,
            Weekday::Saturday => 7,
        }
    }

    /// The weekday of a number taken modulo 7: 0 and 7 are Saturday, 1 is Sunday.
    pub open spec fn from_number(n: int) -> Weekday {
        let r = n % 7;
        if r == 0 {
            Weekday::Saturday
        } else if r == 1 {
            Weekday::Sunday
        } else if r == 2 {
            Weekday::Monday
        } else if r == 3 {
            Weekday::Tuesday
        } else if r == 4 {
            Weekday::Wednesday
        } else if r == 5 {
            Weekday::Thursday
        } else {
            Weekday::Friday
        }
    }

    /// The number of the weekday, Sunday being 1 and Saturday 7.
    pub fn to_integer(self) -> (r: i32)
        ensures
            r == self.number(),
            1 <= r <= 7,
    {
        match self {
            Weekday::Sunday => 1,
            Weekday::Monday => 2,
            Weekday::Tuesday => 3,
            Weekday::Wednesday => 4,
            Weekday::Thursday => 5,
            Weekday::Friday => 6,
            Weekday::Saturday => 7,
        }
    }

    /// The weekday with the given number: 1 is Sunday, 7 and 0 are Saturday; other numbers
    /// are refused.
    pub fn from_integer(n: i32) -> (r: Weekday)
        requires
            0 <= n <= 7,
        ensures
            r == Weekday::from_number(n as int),
            n >= 1 ==> r.number() == n,
            n == 0 ==> r == Weekday::Saturday,
    {
        match n {
            0 => Weekday::Saturday,
            1 => Weekday::Sunday,
            2 => Weekday::Monday,
            3 => Weekday::Tuesday,
            4 => Weekday::Wednesday,
            5 => Weekday::Thursday,
            6 => Weekday::Friday,
            _ => Weekday::Saturday,
        }
    }
}

impl From<Weekday> for i32 {
    fn from(wd: Weekday) -> (r: i32) {
        wd.to_integer()
    }
}

impl FromSpecImpl<Weekday> for i32 {
    open spec fn obeys_from_spec() -> bool {
        true
    }

    open spec fn from_spec(v: Weekday) -> i32 {
        v.number() as i32
    }
}

/// The weekday number taken modulo 7 names the weekday: `from_number` undoes `number`.
pub proof fn lemma_weekday_number_roundtrip(w: Weekday)
    ensures
        Weekday::from_number(w.number()) == w,
        1 <= w.number() <= 7,
{
}

} // verus!
