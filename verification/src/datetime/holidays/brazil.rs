use vstd::prelude::*;

use crate::datetime::calendar::Calendar;
use crate::datetime::date::{
    day_of_serial, day_of_year_of_serial, is_valid_serial, month_of_serial, weekday_of_serial,
    year_of_serial, Date,
};
use crate::datetime::holiday::{
    easter_monday, easter_monday_of, easter_sunday_serial, lemma_easter_offset, Holiday,
};
use crate::datetime::months::Month;
use crate::datetime::weekday::Weekday;
use crate::datetime::weekend::{Weekend, WesternWeekend};

verus! {

/// Brazilian calendar
///
/// Banking holidays:
/// * Saturdays
/// * Sundays
/// * New Year's Day, January 1st
/// * Tiradentes's Day, April 21th
/// * Labour Day, May 1st
/// * Independence Day, September 7th
/// * Nossa Sra. Aparecida Day, October 12th
/// * All Souls Day, November 2nd
/// * Republic Day, November 15th
/// * Christmas, December 25th
/// * Passion of Christ
/// * Carnival
/// * Corpus Christi
///
/// Holidays for the Bovespa stock exchange
/// * Saturdays
/// * Sundays
/// * New Year's Day, January 1st
/// * Sao Paulo City Day, January 25th
/// * Tiradentes's Day, April 21th
/// * Labour Day, May 1st
/// * Revolution Day, July 9th
/// * Independence Day, September 7th
/// * Nossa Sra. Aparecida Day, October 12th
/// * All Souls Day, November 2nd
/// * Republic Day, November 15th
/// * Black Consciousness Day, November 20th (since 2007)
/// * Christmas Eve, December 24th
/// * Christmas, December 25th
/// * Passion of Christ
/// * Carnival
/// * Corpus Christi
/// * The last business day of the year
#[derive(Clone, Copy, Debug)]
pub struct Brazil {}

impl Brazil {
    /// The default calendar is the settlement calendar
    #[allow(clippy::new_ret_no_self)]
    pub fn new() -> (r: Calendar)
        ensures
            r.holiday == Holiday::BrazilSettlement(BrazilSettlement { weekend: Weekend::WesternWeekend(WesternWeekend {}) }),
    {
        BrazilSettlement::new()
    }

    /// Create an instance of the [BrazilExchange] calendar
    pub fn exchange() -> (r: Calendar)
        ensures
            r.holiday == Holiday::BrazilExchange(BrazilExchange { weekend: Weekend::WesternWeekend(WesternWeekend {}) }),
    {
        BrazilExchange::new()
    }
}

/// Brazilian banking holidays.
#[derive(Clone, Copy, Debug)]
pub struct BrazilSettlement {
    pub weekend: Weekend,
}

impl BrazilSettlement {
    /// The Brazilian settlement calendar.
    #[allow(clippy::new_ret_no_self)]
    pub fn new() -> (r: Calendar)
        ensures
            r.holiday == Holiday::BrazilSettlement(BrazilSettlement { weekend: Weekend::WesternWeekend(WesternWeekend {}) }),
    {
        Calendar::new(Holiday::BrazilSettlement(Self { weekend: Weekend::WesternWeekend(WesternWeekend {}) }))
    }

    pub fn name(&self) -> (r: String)
        ensures
            r@ == "Brazil"@,
    {
        "Brazil".to_owned()
    }

    /// Whether the date with serial number `s` is a business day.
    pub open spec fn is_business_day_spec(self, s: int) -> bool {
        let w = weekday_of_serial(s);
        let d = day_of_serial(s);
        let dd = day_of_year_of_serial(s);
        let m = month_of_serial(s);
        let y = year_of_serial(s);
        let em = easter_monday_of(y);
        !(self.weekend.spec_is_weekend(w)
        // New Year's Day
        || (d == 1 && m == 1)
        // Tiradentes Day
        || (d == 21 && m == 4)
        // Labor Day
        || (d == 1 && m == 5)
        // Independence Day
        || (d == 7 && m == 9)
        // Nossa Sra. Aparecida Day
        || (d == 12 && m == 10)
        // All Souls Day
        || (d == 2 && m == 11)
        // Republic Day
        || (d == 15 && m == 11)
        // Christmas
        || (d == 25 && m == 12)
        // Passion of Christ
        || (dd == em - 3)
        // Carnival
        || (dd == em - 49 || dd == em - 48)
        // Corpus Christi
        || (dd == em + 59))
    }

    pub fn is_business_day(&self, date: &Date) -> (r: bool)
        ensures
            r == self.is_business_day_spec(date@),
    {
        let w = date.weekday();
        let d = date.day_of_month();
        let m = date.month();
        let y = date.year();
        let dd = date.day_of_year();
        let em = easter_monday(y);

        if self.is_weekend(w)
            // New Year's Day
            || (d == 1 && m == Month::January)
            // Tiradentes Day
            || (d == 21 && m == Month::April)
            // Labor Day
            || (d == 1 && m == Month::May)
            // Independence Day
            || (d == 7 && m == Month::September)
            // Nossa Sra. Aparecida Day
            || (d == 12 && m == Month::October)
            // All Souls Day
            || (d == 2 && m == Month::November)
            // Republic Day
            || (d == 15 && m == Month::November)
            // Christmas
            || (d == 25 && m == Month::December)
            // Passion of Christ
            || (dd == em - 3)
            // Carnival
            || (dd == em - 49 || dd == em - 48)
            // Corpus Christi
            || (dd == em + 59)
        {
            return false;
        }
        true
    }

    pub fn is_weekend(&self, weekday: Weekday) -> (r: bool)
        ensures
            r == self.weekend.spec_is_weekend(weekday),
    {
        self.weekend.is_weekend(weekday)
    }
}

/// Holidays of the Bovespa stock exchange.
#[derive(Clone, Copy, Debug)]
pub struct BrazilExchange {
    pub weekend: Weekend,
}

impl BrazilExchange {
    /// The Bovespa calendar.
    #[allow(clippy::new_ret_no_self)]
    pub fn new() -> (r: Calendar)
        ensures
            r.holiday == Holiday::BrazilExchange(BrazilExchange { weekend: Weekend::WesternWeekend(WesternWeekend {}) }),
    {
        Calendar::new(Holiday::BrazilExchange(Self { weekend: Weekend::WesternWeekend(WesternWeekend {}) }))
    }

    pub fn name(&self) -> (r: String)
        ensures
            r@ == "BOVESPA"@,
    {
        "BOVESPA".to_owned()
    }

    /// Whether the date with serial number `s` is a business day.
    pub open spec fn is_business_day_spec(self, s: int) -> bool {
        let w = weekday_of_serial(s);
        let d = day_of_serial(s);
        let dd = day_of_year_of_serial(s);
        let m = month_of_serial(s);
        let y = year_of_serial(s);
        let em = easter_monday_of(y);
        !(self.weekend.spec_is_weekend(w)
        // New Year's Day
        || (d == 1 && m == 1)
        // Sao Paulo City Day
        || (d == 25 && m == 1)
        // Tiradentes Day
        || (d == 21 && m == 4)
        // Labor Day
        || (d == 1 && m == 5)
        // Revolution Day
        || (d == 9 && m == 7)
        // Independence Day
        || (d == 7 && m == 9)
        // Nossa Sra. Aparecida Day
        || (d == 12 && m == 10)
        // All Souls Day
        || (d == 2 && m == 11)
        // Republic Day
        || (d == 15 && m == 11)
        // Black Consciousness Day
        || (d == 20 && m == 11 && y >= 2007)
        // Christmas Eve
        || (d == 24 && m == 12)
        // Christmas
        || (d == 25 && m == 12)
        // Passion of Christ
        || (dd == em - 3)
        // Carnival
        || (dd == em - 49 || dd == em - 48)
        // Corpus Christi
        || (dd == em + 59)
        // last business day of the year
        || (m == 12 && (d == 31 || (d >= 29 && w == Weekday::Friday))))
    }

    pub fn is_business_day(&self, date: &Date) -> (r: bool)
        ensures
            r == self.is_business_day_spec(date@),
    {
        let w = date.weekday();
        let d = date.day_of_month();
        let m = date.month();
        let y = date.year();
        let dd = date.day_of_year();
        let em = easter_monday(y);

        if self.is_weekend(w)
            // New Year's Day
            || (d == 1 && m == Month::January)
            // Sao Paulo City Day
            || (d == 25 && m == Month::January)
            // Tiradentes Day
            || (d == 21 && m == Month::April)
            // Labor Day
            || (d == 1 && m == Month::May)
            // Revolution Day
            || (d == 9 && m == Month::July)
            // Independence Day
            || (d == 7 && m == Month::September)
            // Nossa Sra. Aparecida Day
            || (d == 12 && m == Month::October)
            // All Souls Day
            || (d == 2 && m == Month::November)
            // Republic Day
            || (d == 15 && m == Month::November)
            // Black Consciousness Day
            || (d == 20 && m == Month::November && y >= 2007)
            // Christmas Eve
            || (d == 24 && m == Month::December)
            // Christmas
            || (d == 25 && m == Month::December)
            // Passion of Christ
            || (dd == em-3)
            // Carnival
            || (dd == em-49 || dd == em-48)
            // Corpus Christi
            || (dd == em+59)
            // last business day of the year
            || (m == Month::December && (d == 31 || (d >= 29 && w == Weekday::Friday)))
        {
            return false;
        }
        true
    }

    pub fn is_weekend(&self, weekday: Weekday) -> (r: bool)
        ensures
            r == self.weekend.spec_is_weekend(weekday),
    {
        self.weekend.is_weekend(weekday)
    }
}


/// The Brazilian settlement calendar: a day is a business day exactly when it is neither a
/// Saturday nor a Sunday nor New Year's Day, Tiradentes Day, Labour Day, Independence Day,
/// Nossa Sra. Aparecida Day, All Souls Day, Republic Day, Christmas, Good Friday (two days
/// before Easter Sunday), the Carnival Monday and Tuesday (48 and 47 days before Easter
/// Sunday) or Corpus Christi (60 days after Easter Sunday).
pub proof fn lemma_brazil_settlement_holidays(s: int)
    requires
        is_valid_serial(s),
    ensures
        ({
            let w = weekday_of_serial(s);
            let d = day_of_serial(s);
            let m = month_of_serial(s);
            let y = year_of_serial(s);
            let e = easter_sunday_serial(y);
            (BrazilSettlement { weekend: Weekend::WesternWeekend(WesternWeekend {}) }).is_business_day_spec(s)
                == !(w == Weekday::Saturday || w == Weekday::Sunday || (d == 1 && m == 1) || (d == 21 && m == 4) || (d == 1 && m == 5) || (d == 7 && m == 9) || (d == 12 && m == 10) || (d == 2 && m == 11) || (d == 15 && m == 11) || (d == 25 && m == 12) || s == e - 2 || s == e - 48 || s == e - 47 || s == e + 60)
        }),
{
    lemma_easter_offset(s, -3);
    lemma_easter_offset(s, -49);
    lemma_easter_offset(s, -48);
    lemma_easter_offset(s, 59);
}

/// The BOVESPA calendar: a day is a business day exactly when it is neither a Saturday nor a
/// Sunday nor New Year's Day, Sao Paulo City Day, Tiradentes Day, Labour Day, Revolution
/// Day, Independence Day, Nossa Sra. Aparecida Day, All Souls Day, Republic Day, Black
/// Consciousness Day (from 2007 on), Christmas Eve, Christmas, Good Friday (two days before
/// Easter Sunday), the Carnival Monday and Tuesday (48 and 47 days before Easter Sunday),
/// Corpus Christi (60 days after Easter Sunday), nor the last business day of the year.
pub proof fn lemma_brazil_exchange_holidays(s: int)
    requires
        is_valid_serial(s),
    ensures
        ({
            let w = weekday_of_serial(s);
            let d = day_of_serial(s);
            let m = month_of_serial(s);
            let y = year_of_serial(s);
            let e = easter_sunday_serial(y);
            (BrazilExchange { weekend: Weekend::WesternWeekend(WesternWeekend {}) }).is_business_day_spec(s)
                == !(w == Weekday::Saturday || w == Weekday::Sunday || (d == 1 && m == 1) || (d == 25 && m == 1) || (d == 21 && m == 4) || (d == 1 && m == 5) || (d == 9 && m == 7) || (d == 7 && m == 9) || (d == 12 && m == 10) || (d == 2 && m == 11) || (d == 15 && m == 11) || (d == 20 && m == 11 && y >= 2007) || (d == 24 && m == 12) || (d == 25 && m == 12) || s == e - 2 || s == e - 48 || s == e - 47 || s == e + 60 || (m == 12 && (d == 31 || (d >= 29 && w == Weekday::Friday))))
        }),
{
    lemma_easter_offset(s, -3);
    lemma_easter_offset(s, -49);
    lemma_easter_offset(s, -48);
    lemma_easter_offset(s, 59);
}

} // verus!
