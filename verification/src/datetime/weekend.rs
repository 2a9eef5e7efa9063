use vstd::prelude::*;
use crate::datetime::weekday::Weekday;

verus! {

/// Type of weekend
#[derive(Debug, Clone, Copy)]
pub enum Weekend {
    /// Western weekend
    WesternWeekend(WesternWeekend),
    /// Orthodox weekend
    OrthodoxWeekend(OrthodoxWeekend),
    /// No weekends
    NilWeekend(NilWeekend),
}

impl Weekend {
    /// Whether the weekday is a weekend day under this kind of weekend.
    pub open spec fn spec_is_weekend(self, weekday: Weekday) -> bool {
        match self {
            Weekend::WesternWeekend(_) => is_saturday_or_sunday(weekday),
            Weekend::OrthodoxWeekend(_) => is_saturday_or_sunday(weekday),
            Weekend::NilWeekend(_) => false,
        }
    }

    pub fn is_weekend(&self, weekday: Weekday) -> (r: bool)
        ensures
            r == self.spec_is_weekend(weekday),
    {
        match self {
            Weekend::WesternWeekend(w) => w.is_weekend(weekday),
            Weekend::OrthodoxWeekend(w) => w.is_weekend(weekday),
            Weekend::NilWeekend(w) => w.is_weekend(weekday),
        }
    }
}

/// Saturday and Sunday.
pub open spec fn is_saturday_or_sunday(weekday: Weekday) -> bool {
    weekday == Weekday::Saturday || weekday == Weekday::Sunday
}

/// Western weekend: Saturday and Sunday.
#[derive(Debug, Clone, Copy)]
pub struct WesternWeekend {}

impl WesternWeekend {
    pub fn is_weekend(&self, weekday: Weekday) -> (r: bool)
        ensures
            r == is_saturday_or_sunday(weekday),
    {
        weekday == Weekday::Saturday || weekday == Weekday::Sunday
    }
}

/// Orthodox weekend: Saturday and Sunday.
#[derive(Debug, Clone, Copy)]
pub struct OrthodoxWeekend {}

impl OrthodoxWeekend {
    pub fn is_weekend(&self, weekday: Weekday) -> (r: bool)
        ensures
            r == is_saturday_or_sunday(weekday),
    {
        weekday == Weekday::Saturday || weekday == Weekday::Sunday
    }
}

/// No weekend days at all.
#[derive(Debug, Clone, Copy)]
pub struct NilWeekend {}

impl NilWeekend {
    pub fn is_weekend(&self, _weekday: Weekday) -> (r: bool)
        ensures
            !r,
    {
        false
    }
}

} // verus!
