use vstd::prelude::*;

use crate::datetime::date::{serial_of, year_of_serial, Date};
use crate::datetime::dategenerationrule::DateGenerationRule;
use crate::datetime::months::Month;
use crate::datetime::period::Period;
use crate::datetime::calendar::opt_serial;
use crate::datetime::schedule::{checked_previous_twentieth, checked_shift};
use crate::datetime::schedule_rules::{null_serial, previous_twentieth_spec, shifted};
use crate::datetime::timeunit::TimeUnit;

verus! {

/// Credit default swap.
pub struct CreditDefaultSwap {}

/// The rules that CDS maturities are computed for.
pub open spec fn is_cds_rule(rule: DateGenerationRule) -> bool {
    rule == DateGenerationRule::CDS2015 || rule == DateGenerationRule::CDS || rule
        == DateGenerationRule::OldCDS
}

/// Tenors that CDS maturities are computed for: whole years, or months in multiples of three,
/// and not zero months with the old CDS rule.
pub open spec fn is_cds_tenor(tenor: Period, rule: DateGenerationRule) -> bool {
    &&& (tenor.unit == TimeUnit::Years || (tenor.unit == TimeUnit::Months && tenor.length % 3 == 0))
    &&& (rule == DateGenerationRule::OldCDS ==> !(tenor.length == 0 && tenor.unit
        == TimeUnit::Months))
}

/// The anchor date of a CDS traded on the date with serial number `t`: the previous 20th
/// (in March, June, September or December), and with the 2015 rule, a 20th of June or
/// December moves back three months.  `None` when it leaves the range of dates.
pub open spec fn cds_anchor(t: int, rule: DateGenerationRule) -> Option<int> {
    match previous_twentieth_spec(t, rule) {
        None => None,
        Some(a) => if cds2015_roll(a, rule) {
            shifted(a, -3, TimeUnit::Months)
        } else {
            Some(a)
        },
    }
}

/// With the 2015 rule, an anchor on the 20th of June or December rolls.
pub open spec fn cds2015_roll(a: int, rule: DateGenerationRule) -> bool {
    rule == DateGenerationRule::CDS2015 && (a == serial_of(year_of_serial(a), 12, 20) || a
        == serial_of(year_of_serial(a), 6, 20))
}

/// The maturity of a CDS traded on the date with serial number `t`: the anchor date moved by
/// the tenor and three months; the null date for a zero tenor that rolls under the 2015 rule.
/// `None` when a date leaves the range of dates.
#[verifier::opaque]
pub open spec fn cds_maturity_spec(t: int, tenor: Period, rule: DateGenerationRule) -> Option<int> {
    match previous_twentieth_spec(t, rule) {
        None => None,
        Some(a) => if cds2015_roll(a, rule) && tenor.length == 0 {
            Some(null_serial())
        } else {
            match cds_anchor(t, rule) {
                None => None,
                Some(a1) => match shifted(a1, tenor.length as int, tenor.unit) {
                    None => None,
                    Some(a2) => shifted(a2, 3, TimeUnit::Months),
                },
            }
        },
    }
}

/// Whether the maturity can be computed: a CDS rule and tenor, dates in range, and a
/// maturity after the trade date (unless the null date is returned for a zero tenor).
pub open spec fn cds_maturity_defined(t: int, tenor: Period, rule: DateGenerationRule) -> bool {
    &&& is_cds_rule(rule)
    &&& is_cds_tenor(tenor, rule)
    &&& match cds_maturity_spec(t, tenor, rule) {
        None => false,
        Some(m) => m > t || (cds2015_roll(previous_twentieth_spec(t, rule).unwrap(), rule)
            && tenor.length == 0),
    }
}

/// Whether the 2015 rule rolls the anchor date `a`.
fn rolls(a: &Date, rule: DateGenerationRule) -> (r: bool)
    ensures
        r == cds2015_roll(a@, rule),
{
    let y = a.year();
    rule == DateGenerationRule::CDS2015 && (a.serial_number() == Date::new(
        20,
        Month::December,
        y,
    ).serial_number() || a.serial_number() == Date::new(20, Month::June, y).serial_number())
}

/// The anchor date moved by the tenor and three months.
fn maturity_from_anchor(a: Date, tenor: Period) -> (r: Option<Date>)
    ensures
        opt_serial(r) == (match shifted(a@, tenor.length as int, tenor.unit) {
            None => None,
            Some(a2) => shifted(a2, 3, TimeUnit::Months),
        }),
{
    match checked_shift(a, tenor.length, tenor.unit) {
        None => None,
        Some(a2) => checked_shift(a2, 3, TimeUnit::Months),
    }
}

/// The maturity of a CDS (see [cds_maturity_spec]), without the checks on the rule, the
/// tenor and the result.
fn maturity_candidate(trade_date: &Date, tenor: Period, rule: DateGenerationRule) -> (r: Option<
    Date,
>)
    ensures
        opt_serial(r) == cds_maturity_spec(trade_date@, tenor, rule),
        r is Some ==> previous_twentieth_spec(trade_date@, rule) is Some,
{
    reveal(cds_maturity_spec);
    let a = match checked_previous_twentieth(trade_date, rule) {
        None => {
            return None;
        },
        Some(a) => a,
    };
    let roll = rolls(&a, rule);
    if roll && tenor.length == 0 {
        return Some(Date::default());
    }
    let a1 = if roll {
        match checked_shift(a, -3, TimeUnit::Months) {
            None => {
                return None;
            },
            Some(x) => x,
        }
    } else {
        a
    };
    maturity_from_anchor(a1, tenor)
}

/// The maturity of a CDS, or `None` where it is not defined (see [cds_maturity]).
pub fn checked_cds_maturity(trade_date: &Date, tenor: Period, rule: DateGenerationRule) -> (r: Option<
    Date,
>)
    ensures
        r is Some <==> cds_maturity_defined(trade_date@, tenor, rule),
        r matches Some(m) ==> cds_maturity_spec(trade_date@, tenor, rule) == Some(m@),
{
    if !(rule == DateGenerationRule::CDS2015 || rule == DateGenerationRule::CDS || rule
        == DateGenerationRule::OldCDS) {
        return None;
    }
    if !(tenor.unit == TimeUnit::Years || (tenor.unit == TimeUnit::Months && tenor.length % 3
        == 0)) {
        return None;
    }
    if rule == DateGenerationRule::OldCDS && tenor.length == 0 && tenor.unit == TimeUnit::Months {
        return None;
    }
    let m = match maturity_candidate(trade_date, tenor, rule) {
        None => {
            return None;
        },
        Some(m) => m,
    };
    if m.serial_number() > trade_date.serial_number() {
        return Some(m);
    }
    let a = checked_previous_twentieth(trade_date, rule).unwrap();
    if rolls(&a, rule) && tenor.length == 0 {
        Some(m)
    } else {
        None
    }
}

/// The maturity of a CDS traded on `trade_date` with the given tenor under a CDS date
/// generation rule.
pub fn cds_maturity(trade_date: &Date, tenor: Period, rule: DateGenerationRule) -> (r: Date)
    requires
        cds_maturity_defined(trade_date@, tenor, rule),
    ensures
        cds_maturity_spec(trade_date@, tenor, rule) == Some(r@),
{
    checked_cds_maturity(trade_date, tenor, rule).unwrap()
}

} // verus!
