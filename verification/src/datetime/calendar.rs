use vstd::prelude::*;

use crate::datetime::businessdayconvention::BusinessDayConvention;
use crate::datetime::date::{
    advanced_serial, can_advance, day_of_serial, is_leap_year, is_valid_serial, month_days,
    month_of_serial, serial_of, weekday_of_serial, year_of_serial, ymd_of_serial, Date,
    MAXIMUM_SERIAL_NUMBER, MINIMUM_SERIAL_NUMBER,
};
use crate::datetime::holiday::Holiday;
use crate::datetime::period::Period;
use crate::datetime::timeunit::TimeUnit;
use crate::datetime::weekday::Weekday;
use crate::datetime::SerialNumber;

verus! {

/// A calendar: the rules that tell business days from holidays, with the date arithmetic
/// that depends on them.
#[derive(Clone, Copy, Debug)]
pub struct Calendar {
    pub holiday: Holiday,
}

impl Calendar {
    /// The calendar with the given holiday rules.
    pub fn new(holiday: Holiday) -> (r: Calendar)
        ensures
            r.holiday == holiday,
    {
        Calendar { holiday }
    }

    /// Whether the date with serial number `s` is a business day.
    pub open spec fn is_business_day_spec(self, s: int) -> bool {
        self.holiday.is_business_day_spec(s)
    }

    /// The name of the calendar.
    pub fn name(&self) -> (r: String)
        ensures
            r@ == self.holiday.name_spec(),
    {
        self.holiday.name()
    }

    /// Whether the date is a business day.
    pub fn is_business_day(&self, date: &Date) -> (r: bool)
        ensures
            r == self.is_business_day_spec(date@),
    {
        self.holiday.is_business_day(date)
    }

    /// Whether the date is a holiday, i.e. not a business day.
    pub fn is_holiday(&self, date: &Date) -> (r: bool)
        ensures
            r == !self.is_business_day_spec(date@),
    {
        !self.holiday.is_business_day(date)
    }

    /// Whether the weekday is a weekend day in this calendar.
    pub fn is_weekend(&self, weekday: Weekday) -> (r: bool)
        ensures
            r == self.holiday.is_weekend_spec(weekday),
    {
        self.holiday.is_weekend(weekday)
    }
}


/// The serial number of an optional date.
pub open spec fn opt_serial(d: Option<Date>) -> Option<int> {
    match d {
        Some(x) => Some(x@),
        None => None,
    }
}

impl Calendar {
    /// The first business day at or after serial number `s`; `None` when there is none up to
    /// the last date of the range.
    pub open spec fn following_from(self, s: int) -> Option<int>
        decreases MAXIMUM_SERIAL_NUMBER + 1 - s,
    {
        if !is_valid_serial(s) {
            None
        } else if self.is_business_day_spec(s) {
            Some(s)
        } else {
            self.following_from(s + 1)
        }
    }

    /// The last business day at or before serial number `s`; `None` when there is none down
    /// to the first date of the range.
    pub open spec fn preceding_from(self, s: int) -> Option<int>
        decreases s,
    {
        if !is_valid_serial(s) {
            None
        } else if self.is_business_day_spec(s) {
            Some(s)
        } else {
            self.preceding_from(s - 1)
        }
    }

    /// The business day nearest to serial number `s`, looking `k` days on either side first
    /// and preferring the later day at equal distance; `None` when the search leaves the range
    /// of dates.
    pub open spec fn nearest_from(self, s: int, k: int) -> Option<int>
        decreases MAXIMUM_SERIAL_NUMBER + 1 - (s + k),
    {
        if k < 0 || !is_valid_serial(s + k) || !is_valid_serial(s - k) {
            None
        } else if !self.is_business_day_spec(s + k) && !self.is_business_day_spec(s - k) {
            self.nearest_from(s, k + 1)
        } else if !self.is_business_day_spec(s + k) {
            Some(s - k)
        } else {
            Some(s + k)
        }
    }

    /// The serial number that the business day convention `c` moves serial number `s` to;
    /// `None` when the move would leave the range of dates.
    pub open spec fn adjusted(self, s: int, c: BusinessDayConvention) -> Option<int> {
        if !is_valid_serial(s) {
            None
        } else {
            match c {
                BusinessDayConvention::Unadjusted => Some(s),
                BusinessDayConvention::Following => self.following_from(s),
                BusinessDayConvention::Preceding => self.preceding_from(s),
                BusinessDayConvention::ModifiedFollowing
                | BusinessDayConvention::HalfMonthModifiedFollowing => match self.following_from(
                    s,
                ) {
                    None => None,
                    Some(f) => if month_of_serial(f) != month_of_serial(s) || (c
                        == BusinessDayConvention::HalfMonthModifiedFollowing && day_of_serial(s)
                        <= 15 && day_of_serial(f) > 15) {
                        self.preceding_from(s)
                    } else {
                        Some(f)
                    },
                },
                BusinessDayConvention::ModifiedPreceding => match self.preceding_from(s) {
                    None => None,
                    Some(p) => if month_of_serial(p) != month_of_serial(s) {
                        self.following_from(s)
                    } else {
                        Some(p)
                    },
                },
                BusinessDayConvention::Nearest => self.nearest_from(s, 0),
            }
        }
    }

    /// Whether the day with serial number `s` is the last business day of its month: the next
    /// business day after it falls in another month.  `None` when there is no next business
    /// day in the range of dates.
    pub open spec fn is_end_of_month_spec(self, s: int) -> Option<bool> {
        match self.following_from(s + 1) {
            None => None,
            Some(f) => Some(month_of_serial(f) != month_of_serial(s)),
        }
    }

    /// The last business day of the month of the day with serial number `s`.
    pub open spec fn end_of_month_spec(self, s: int) -> Option<int> {
        let t = ymd_of_serial(s);
        self.preceding_from(serial_of(t.0, t.1, month_days(t.1, is_leap_year(t.0))))
    }

    /// The business day `n` business days after (`n > 0`) or before (`n < 0`) serial number
    /// `s`; `s` itself when `n` is 0.
    pub open spec fn advance_business_days(self, s: int, n: int) -> Option<int>
        decreases (if n >= 0 {
            n
        } else {
            -n
        }),
    {
        if n == 0 {
            Some(s)
        } else if n > 0 {
            match self.following_from(s + 1) {
                None => None,
                Some(s1) => self.advance_business_days(s1, n - 1),
            }
        } else {
            match self.preceding_from(s - 1) {
                None => None,
                Some(s1) => self.advance_business_days(s1, n + 1),
            }
        }
    }

    /// The date reached from serial number `s` by `n` time units: business days for days;
    /// for weeks, months and years the date moved by that much and then adjusted by `c`,
    /// except that with `eom` set a move by months or years from the last business day of a
    /// month gives the last business day of the target month.
    pub open spec fn advanced(
        self,
        s: int,
        n: int,
        unit: TimeUnit,
        c: BusinessDayConvention,
        eom: bool,
    ) -> Option<int> {
        if n == 0 {
            self.adjusted(s, c)
        } else if unit == TimeUnit::Days {
            self.advance_business_days(s, n)
        } else if unit == TimeUnit::Weeks {
            if is_valid_serial(s + 7 * n) {
                self.adjusted(s + 7 * n, c)
            } else {
                None
            }
        } else if unit == TimeUnit::Months || unit == TimeUnit::Years {
            if !can_advance(s, n, unit) {
                None
            } else if eom {
                match self.is_end_of_month_spec(s) {
                    None => None,
                    Some(true) => self.end_of_month_spec(advanced_serial(s, n, unit)),
                    Some(false) => self.adjusted(advanced_serial(s, n, unit), c),
                }
            } else {
                self.adjusted(advanced_serial(s, n, unit), c)
            }
        } else {
            None
        }
    }

    /// Whether the date with serial number `s` is in the holiday list: a holiday, and, unless
    /// weekends are included, not a weekend day.
    pub open spec fn is_listed_holiday(self, s: int, include_weekends: bool) -> bool {
        !self.is_business_day_spec(s) && (include_weekends || !self.holiday.is_weekend_spec(
            weekday_of_serial(s),
        ))
    }

    fn checked_following(&self, s: SerialNumber) -> (r: Option<Date>)
        ensures
            opt_serial(r) == self.following_from(s as int),
    {
        if s < MINIMUM_SERIAL_NUMBER {
            return None;
        }
        let mut cur = s;
        while cur <= MAXIMUM_SERIAL_NUMBER
            invariant
                MINIMUM_SERIAL_NUMBER <= cur,
                self.following_from(cur as int) == self.following_from(s as int),
            decreases MAXIMUM_SERIAL_NUMBER + 1 - cur,
        {
            let d = Date::from_serial(cur);
            if self.is_business_day(&d) {
                return Some(d);
            }
            cur = cur + 1;
        }
        None
    }

    fn checked_preceding(&self, s: SerialNumber) -> (r: Option<Date>)
        ensures
            opt_serial(r) == self.preceding_from(s as int),
    {
        if s > MAXIMUM_SERIAL_NUMBER {
            return None;
        }
        let mut cur = s;
        while cur >= MINIMUM_SERIAL_NUMBER
            invariant
                cur <= MAXIMUM_SERIAL_NUMBER,
                self.preceding_from(cur as int) == self.preceding_from(s as int),
            decreases cur,
        {
            let d = Date::from_serial(cur);
            if self.is_business_day(&d) {
                return Some(d);
            }
            cur = cur - 1;
        }
        None
    }

    fn checked_nearest(&self, s: SerialNumber) -> (r: Option<Date>)
        requires
            is_valid_serial(s as int),
        ensures
            opt_serial(r) == self.nearest_from(s as int, 0),
    {
        let mut k: i32 = 0;
        while k <= MAXIMUM_SERIAL_NUMBER
            invariant
                0 <= k,
                is_valid_serial(s as int),
                self.nearest_from(s as int, k as int) == self.nearest_from(s as int, 0),
            decreases MAXIMUM_SERIAL_NUMBER + 1 - k,
        {
            if s + k > MAXIMUM_SERIAL_NUMBER || s - k < MINIMUM_SERIAL_NUMBER {
                return None;
            }
            let d1 = Date::from_serial(s + k);
            let d2 = Date::from_serial(s - k);
            let h1 = !self.is_business_day(&d1);
            let h2 = !self.is_business_day(&d2);
            if !(h1 && h2) {
                if h1 {
                    return Some(d2);
                } else {
                    return Some(d1);
                }
            }
            k = k + 1;
        }
        None
    }

    /// The date that the business day convention moves the given date to; `None` when the
    /// move would leave the range of dates.
    pub fn checked_adjust(&self, date: Date, convention: BusinessDayConvention) -> (r: Option<
        Date,
    >)
        ensures
            opt_serial(r) == self.adjusted(date@, convention),
    {
        let s = date.serial_number();
        match convention {
            BusinessDayConvention::Unadjusted => Some(date),
            BusinessDayConvention::Following => self.checked_following(s),
            BusinessDayConvention::Preceding => self.checked_preceding(s),
            BusinessDayConvention::ModifiedFollowing
            | BusinessDayConvention::HalfMonthModifiedFollowing => {
                match self.checked_following(s) {
                    None => None,
                    Some(d1) => {
                        if d1.month() != date.month() || (convention
                            == BusinessDayConvention::HalfMonthModifiedFollowing
                            && date.day_of_month() <= 15 && d1.day_of_month() > 15) {
                            self.checked_preceding(s)
                        } else {
                            Some(d1)
                        }
                    },
                }
            },
            BusinessDayConvention::ModifiedPreceding => {
                match self.checked_preceding(s) {
                    None => None,
                    Some(d1) => {
                        if d1.month() != date.month() {
                            self.checked_following(s)
                        } else {
                            Some(d1)
                        }
                    },
                }
            },
            BusinessDayConvention::Nearest => self.checked_nearest(s),
        }
    }

    /// The date that the business day convention moves the given date to.
    pub fn adjust(&self, date: Date, convention: BusinessDayConvention) -> (r: Date)
        requires
            self.adjusted(date@, convention) is Some,
        ensures
            self.adjusted(date@, convention) == Some(r@),
    {
        match self.checked_adjust(date, convention) {
            Some(d) => d,
            None => date,
        }
    }

    /// Whether the date is the last business day of its month; `None` when no business day
    /// follows it in the range of dates.
    pub fn checked_is_end_of_month(&self, date: &Date) -> (r: Option<bool>)
        ensures
            r == self.is_end_of_month_spec(date@),
    {
        let s = date.serial_number();
        if s >= MAXIMUM_SERIAL_NUMBER {
            return None;
        }
        match self.checked_following(s + 1) {
            None => None,
            Some(d1) => Some(date.month() != d1.month()),
        }
    }

    /// Whether the date is the last business day of its month.
    pub fn is_end_of_month(&self, date: &Date) -> (r: bool)
        requires
            self.is_end_of_month_spec(date@) is Some,
        ensures
            self.is_end_of_month_spec(date@) == Some(r),
    {
        match self.checked_is_end_of_month(date) {
            Some(b) => b,
            None => false,
        }
    }

    /// The last business day of the month of the date; `None` when the month has none.
    pub fn checked_end_of_month(&self, date: &Date) -> (r: Option<Date>)
        ensures
            opt_serial(r) == self.end_of_month_spec(date@),
    {
        let last = date.end_of_month();
        let s = last.serial_number();
        proof {
            crate::datetime::date::lemma_serial_has_date(last@);
        }
        self.checked_preceding(s)
    }

    /// The last business day of the month of the date.
    pub fn end_of_month(&self, date: &Date) -> (r: Date)
        requires
            self.end_of_month_spec(date@) is Some,
        ensures
            self.end_of_month_spec(date@) == Some(r@),
    {
        match self.checked_end_of_month(date) {
            Some(d) => d,
            None => *date,
        }
    }

    fn checked_advance_business_days(&self, date: Date, n: i32) -> (r: Option<Date>)
        ensures
            opt_serial(r) == self.advance_business_days(date@, n as int),
    {
        let mut d1 = date;
        let mut k = n;
        while k > 0
            invariant
                self.advance_business_days(d1@, k as int) == self.advance_business_days(
                    date@,
                    n as int,
                ),
                n <= 0 ==> k == n,
                n > 0 ==> k >= 0,
            decreases k,
        {
            let s = d1.serial_number();
            if s >= MAXIMUM_SERIAL_NUMBER {
                return None;
            }
            match self.checked_following(s + 1) {
                None => {
                    return None;
                },
                Some(next) => {
                    d1 = next;
                },
            }
            k = k - 1;
        }
        while k < 0
            invariant
                self.advance_business_days(d1@, k as int) == self.advance_business_days(
                    date@,
                    n as int,
                ),
                k <= 0,
            decreases -k,
        {
            let s = d1.serial_number();
            if s <= MINIMUM_SERIAL_NUMBER {
                return None;
            }
            match self.checked_preceding(s - 1) {
                None => {
                    return None;
                },
                Some(prev) => {
                    d1 = prev;
                },
            }
            k = k + 1;
        }
        Some(d1)
    }

    /// The date reached from `date` by `n` time units: `n` business days for days; for the
    /// other units the date moved by that much and adjusted by the convention, or, with
    /// `end_of_month` set and a date that is the last business day of its month, the last
    /// business day of the target month.  `None` when the result would leave the range of
    /// dates or the unit is finer than a day.
    pub fn checked_advance(
        &self,
        date: Date,
        n: i32,
        unit: TimeUnit,
        convention: BusinessDayConvention,
        end_of_month: bool,
    ) -> (r: Option<Date>)
        ensures
            opt_serial(r) == self.advanced(date@, n as int, unit, convention, end_of_month),
    {
        if n == 0 {
            return self.checked_adjust(date, convention);
        }
        match unit {
            TimeUnit::Days => self.checked_advance_business_days(date, n),
            TimeUnit::Weeks => {
                let s = date.serial_number();
                if n > 20000 || n < -20000 {
                    return None;
                }
                let s1 = s + 7 * n;
                if s1 < MINIMUM_SERIAL_NUMBER || s1 > MAXIMUM_SERIAL_NUMBER {
                    return None;
                }
                self.checked_adjust(Date::from_serial(s1), convention)
            },
            TimeUnit::Months | TimeUnit::Years => {
                if !date.can_advance_by(n, unit) {
                    return None;
                }
                let d1 = date.advance(n, unit);
                if end_of_month {
                    match self.checked_is_end_of_month(&date) {
                        None => None,
                        Some(true) => self.checked_end_of_month(&d1),
                        Some(false) => self.checked_adjust(d1, convention),
                    }
                } else {
                    self.checked_adjust(d1, convention)
                }
            },
            _ => None,
        }
    }

    /// The date reached from `date` by `n` time units (see [Calendar::checked_advance]).
    pub fn advance(
        &self,
        date: Date,
        n: i32,
        unit: TimeUnit,
        convention: BusinessDayConvention,
        end_of_month: bool,
    ) -> (r: Date)
        requires
            self.advanced(date@, n as int, unit, convention, end_of_month) is Some,
        ensures
            self.advanced(date@, n as int, unit, convention, end_of_month) == Some(r@),
    {
        match self.checked_advance(date, n, unit, convention, end_of_month) {
            Some(d) => d,
            None => date,
        }
    }

    /// The date reached from `date` by the given period (see [Calendar::advance]).
    pub fn advance_by_period(
        &self,
        date: Date,
        period: &Period,
        convention: BusinessDayConvention,
        end_of_month: bool,
    ) -> (r: Date)
        requires
            self.advanced(date@, period.length as int, period.unit, convention, end_of_month) is Some,
        ensures
            self.advanced(date@, period.length as int, period.unit, convention, end_of_month)
                == Some(r@),
    {
        self.advance(date, period.length, period.unit, convention, end_of_month)
    }

    /// The date reached from `date` by `n` time units with the following business day
    /// convention (see [Calendar::advance]).
    pub fn advance_by_days_with_following(
        &self,
        date: Date,
        n: i32,
        unit: TimeUnit,
        end_of_month: bool,
    ) -> (r: Date)
        requires
            self.advanced(date@, n as int, unit, BusinessDayConvention::Following, end_of_month) is Some,
        ensures
            self.advanced(date@, n as int, unit, BusinessDayConvention::Following, end_of_month)
                == Some(r@),
    {
        self.advance(date, n, unit, BusinessDayConvention::Following, end_of_month)
    }

    /// The holidays between `from` and `to`, both included, in increasing order; weekend days
    /// are listed only when `include_weekends` is set.
    pub fn holiday_list(&self, from: Date, to: Date, include_weekends: bool) -> (r: Vec<Date>)
        ensures
            forall|i: int| 0 <= i < r@.len() ==> from@ <= #[trigger] r@[i]@ <= to@,
            forall|i: int, j: int| 0 <= i < j < r@.len() ==> r@[i]@ < r@[j]@,
            forall|i: int| 0 <= i < r@.len() ==> self.is_listed_holiday(#[trigger] r@[i]@, include_weekends),
            forall|s: int| from@ <= s <= to@ && self.is_listed_holiday(s, include_weekends) ==> exists|i: int| 0 <= i < r@.len() && #[trigger] r@[i]@ == s,
    {
        let mut result: Vec<Date> = Vec::new();
        let start = from.serial_number();
        let end = to.serial_number();
        let mut cur = start;
        while cur <= end
            invariant
                is_valid_serial(start as int),
                is_valid_serial(end as int),
                start == from@,
                end == to@,
                start <= cur,
                cur <= end + 1 || cur == start,
                forall|i: int| 0 <= i < result@.len() ==> from@ <= #[trigger] result@[i]@ < cur,
                forall|i: int, j: int| 0 <= i < j < result@.len() ==> result@[i]@ < result@[j]@,
                forall|i: int| 0 <= i < result@.len() ==> self.is_listed_holiday(#[trigger] result@[i]@, include_weekends),
                forall|s: int| from@ <= s < cur && self.is_listed_holiday(s, include_weekends) ==> exists|i: int| 0 <= i < result@.len() && #[trigger] result@[i]@ == s,
            decreases end + 1 - cur,
        {
            let d = Date::from_serial(cur);
            if self.is_holiday(&d) && (include_weekends || !self.is_weekend(d.weekday())) {
                let ghost old_result = result@;
                result.push(d);
                proof {
                    assert(result@[result@.len() - 1]@ == cur);
                    assert forall|t: int|
                        from@ <= t < cur + 1 && self.is_listed_holiday(
                            t,
                            include_weekends,
                        ) implies exists|i: int|
                        0 <= i < result@.len() && #[trigger] result@[i]@ == t by {
                        if t < cur {
                            let i = choose|i: int|
                                0 <= i < old_result.len() && #[trigger] old_result[i]@ == t;
                            assert(result@[i] == old_result[i]);
                        } else {
                            assert(result@[result@.len() - 1]@ == t);
                        }
                    }
                }
            }
            cur = cur + 1;
        }
        result
    }
}

/// The following business day is the first business day at or after the given day.
pub proof fn lemma_following_is_first_business_day(cal: Calendar, s: int)
    requires
        is_valid_serial(s),
    ensures
        cal.following_from(s) matches Some(r) ==> {
            &&& s <= r
            &&& is_valid_serial(r)
            &&& cal.is_business_day_spec(r)
            &&& forall|t: int| s <= t < r ==> !cal.is_business_day_spec(t)
        },
    decreases MAXIMUM_SERIAL_NUMBER + 1 - s,
{
    if !cal.is_business_day_spec(s) && is_valid_serial(s + 1) {
        lemma_following_is_first_business_day(cal, s + 1);
        if let Some(r) = cal.following_from(s) {
            assert forall|t: int| s <= t < r implies !cal.is_business_day_spec(t) by {
                if t > s {
                    assert(s + 1 <= t < r);
                }
            }
        }
    } else if !cal.is_business_day_spec(s) {
        assert(cal.following_from(s + 1) is None);
    }
}

/// The preceding business day is the last business day at or before the given day.
pub proof fn lemma_preceding_is_last_business_day(cal: Calendar, s: int)
    requires
        is_valid_serial(s),
    ensures
        cal.preceding_from(s) matches Some(r) ==> {
            &&& r <= s
            &&& is_valid_serial(r)
            &&& cal.is_business_day_spec(r)
            &&& forall|t: int| r < t <= s ==> !cal.is_business_day_spec(t)
        },
    decreases s,
{
    if !cal.is_business_day_spec(s) && is_valid_serial(s - 1) {
        lemma_preceding_is_last_business_day(cal, s - 1);
        if let Some(r) = cal.preceding_from(s) {
            assert forall|t: int| r < t <= s implies !cal.is_business_day_spec(t) by {
                if t < s {
                    assert(r < t <= s - 1);
                }
            }
        }
    } else if !cal.is_business_day_spec(s) {
        assert(cal.preceding_from(s - 1) is None);
    }
}

proof fn lemma_nearest_is_business_day(cal: Calendar, s: int, k: int)
    requires
        0 <= k,
    ensures
        cal.nearest_from(s, k) matches Some(r) ==> is_valid_serial(r) && cal.is_business_day_spec(r),
    decreases MAXIMUM_SERIAL_NUMBER + 1 - (s + k),
{
    if is_valid_serial(s + k) && is_valid_serial(s - k) && !cal.is_business_day_spec(s + k)
        && !cal.is_business_day_spec(s - k) {
        lemma_nearest_is_business_day(cal, s, k + 1);
    }
}

/// Every business day convention but `Unadjusted` moves a date to a business day.
pub proof fn lemma_adjusted_is_business_day(cal: Calendar, s: int, c: BusinessDayConvention)
    requires
        c != BusinessDayConvention::Unadjusted,
    ensures
        cal.adjusted(s, c) matches Some(r) ==> is_valid_serial(r) && cal.is_business_day_spec(r),
{
    if is_valid_serial(s) {
        lemma_following_is_first_business_day(cal, s);
        lemma_preceding_is_last_business_day(cal, s);
        lemma_nearest_is_business_day(cal, s, 0);
    }
}

/// A business day is left where it is by every business day convention.
pub proof fn lemma_adjust_business_day(cal: Calendar, s: int, c: BusinessDayConvention)
    requires
        is_valid_serial(s),
        cal.is_business_day_spec(s),
    ensures
        cal.adjusted(s, c) == Some(s),
{
}

/// Adjusting twice by the same convention gives the same date as adjusting once.
pub proof fn lemma_adjust_idempotent(cal: Calendar, s: int, c: BusinessDayConvention)
    ensures
        cal.adjusted(s, c) matches Some(r) ==> cal.adjusted(r, c) == Some(r),
{
    if c != BusinessDayConvention::Unadjusted {
        lemma_adjusted_is_business_day(cal, s, c);
        if let Some(r) = cal.adjusted(s, c) {
            lemma_adjust_business_day(cal, r, c);
        }
    }
}

/// Advancing by zero units adjusts the date.
pub proof fn lemma_advance_zero(
    cal: Calendar,
    s: int,
    unit: TimeUnit,
    c: BusinessDayConvention,
    eom: bool,
)
    ensures
        cal.advanced(s, 0, unit, c, eom) == cal.adjusted(s, c),
{
}

} // verus!
