use vstd::prelude::*;

use crate::datetime::frequency::Frequency;
use crate::datetime::timeunit::TimeUnit;

verus! {

/// A length of time: a number of time units.
#[derive(Clone, Copy, Debug, PartialEq, Eq, Structural, Hash)]
pub struct Period {
    pub length: i32,
    pub unit: TimeUnit,
}

impl Period {
    /// A period of `length` units.
    pub fn new(length: i32, unit: TimeUnit) -> (r: Period)
        ensures
            r.length == length,
            r.unit == unit,
    {
        Period { length, unit }
    }

    /// The period between two events of the frequency: a year divided by the number of events
    /// (in months up to monthly, in weeks up to weekly); zero years for `Once`, zero days for
    /// `NoFrequency`, and none for `OtherFrequency`.
    pub open spec fn of_frequency(f: Frequency) -> Option<Period> {
        match f {
            Frequency::NoFrequency => Some(Period { length: 0, unit: TimeUnit::Days }),
            Frequency::Once => Some(Period { length: 0, unit: TimeUnit::Years }),
            Frequency::Annual => Some(Period { length: 1, unit: TimeUnit::Years }),
            Frequency::Semiannual => Some(Period { length: 6, unit: TimeUnit::Months }),
            Frequency::EveryFourthMonth => Some(Period { length: 4, unit: TimeUnit::Months }),
            Frequency::Quarterly => Some(Period { length: 3, unit: TimeUnit::Months }),
            Frequency::Bimonthly => Some(Period { length: 2, unit: TimeUnit::Months }),
            Frequency::Monthly => Some(Period { length: 1, unit: TimeUnit::Months }),
            Frequency::EveryFourthWeek => Some(Period { length: 4, unit: TimeUnit::Weeks }),
            Frequency::Biweekly => Some(Period { length: 2, unit: TimeUnit::Weeks }),
            Frequency::Weekly => Some(Period { length: 1, unit: TimeUnit::Weeks }),
            Frequency::Daily => Some(Period { length: 1, unit: TimeUnit::Days }),
            Frequency::OtherFrequency => None,
        }
    }

    /// The period between two events of the frequency (see [Period::of_frequency]).
    pub fn from_frequency(f: Frequency) -> (r: Option<Period>)
        ensures
            r == Self::of_frequency(f),
    {
        match f {
            Frequency::NoFrequency => Some(Period::new(0, TimeUnit::Days)),
            Frequency::Once => Some(Period::new(0, TimeUnit::Years)),
            Frequency::Annual => Some(Period::new(1, TimeUnit::Years)),
            Frequency::Semiannual => Some(Period::new(6, TimeUnit::Months)),
            Frequency::EveryFourthMonth => Some(Period::new(4, TimeUnit::Months)),
            Frequency::Quarterly => Some(Period::new(3, TimeUnit::Months)),
            Frequency::Bimonthly => Some(Period::new(2, TimeUnit::Months)),
            Frequency::Monthly => Some(Period::new(1, TimeUnit::Months)),
            Frequency::EveryFourthWeek => Some(Period::new(4, TimeUnit::Weeks)),
            Frequency::Biweekly => Some(Period::new(2, TimeUnit::Weeks)),
            Frequency::Weekly => Some(Period::new(1, TimeUnit::Weeks)),
            Frequency::Daily => Some(Period::new(1, TimeUnit::Days)),
            Frequency::OtherFrequency => None,
        }
    }
}

} // verus!
