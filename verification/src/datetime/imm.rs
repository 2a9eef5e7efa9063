use vstd::prelude::*;
use vstd::string::StringSliceAdditionalSpecFns;

use crate::context::pricing_context::PricingContext;
use crate::datetime::date::{
    day_of_serial, is_leap_year, is_valid_serial, is_valid_ymd, lemma_day_number_order,
    lemma_serial_has_date, lemma_serial_roundtrip, lemma_weekday_shift, month_days,
    month_of_serial, nth_weekday_day, serial_of, weekday_of_serial, year_of_serial,
    ymd_of_serial, Date, MINIMUM_SERIAL_NUMBER,
};
use crate::datetime::months::Month;
use crate::datetime::weekday::Weekday;
use crate::datetime::Year;

verus! {

/// Main cycle of the International Monetary Market (a.k.a. IMM) months
///
/// <https://en.wikipedia.org/wiki/IMM_dates>:
///
/// The IMM dates are the four quarterly dates of each year which EuroDollar and Foreign
/// Exchange futures contracts and option contracts use as their scheduled maturity date or
/// termination date. The dates are the third Wednesday of March, June, September and
/// December (i.e., between the 15th and 21st, whichever such day is a Wednesday).
#[derive(Clone, Copy, Debug)]
pub struct IMM {
    pricing_context: PricingContext,
}

/// Letters of the IMM months, January (F) to December (Z).
#[derive(Clone, Copy, Debug, PartialEq, Eq, Structural)]
pub enum IMMMonth {
    F,
    G,
    H,
    J,
    K,
    M,
    N,
    Q,
    U,
    V,
    X,
    Z,
}

impl IMMMonth {
    /// The number of the month that the letter stands for.
    pub open spec fn number(self) -> int {
        match self {
            IMMMonth::F => 1,
            IMMMonth::G => 2,
            IMMMonth::H => 3,
            IMMMonth::J => 4,
            IMMMonth::K => 5,
            IMMMonth::M => 6,
            IMMMonth::N => 7,
            IMMMonth::Q => 8,
            IMMMonth::U => 9,
            IMMMonth::V => 10,
            IMMMonth::X => 11,
            IMMMonth::Z => 12,
        }
    }

    /// The number of the month that the letter stands for.
    pub fn to_integer(self) -> (r: i32)
        ensures
            r == self.number(),
    {
        match self {
            IMMMonth::F => 1,
            IMMMonth::G => 2,
            IMMMonth::H => 3,
            IMMMonth::J => 4,
            IMMMonth::K => 5,
            IMMMonth::M => 6,
            IMMMonth::N => 7,
            IMMMonth::Q => 8,
            IMMMonth::U => 9,
            IMMMonth::V => 10,
            IMMMonth::X => 11,
            IMMMonth::Z => 12,
        }
    }
}

/// Whether the date with serial number `s` is an IMM date: a Wednesday between the 15th and
/// the 21st, in March, June, September or December for the main cycle.
pub open spec fn is_imm_date_spec(s: int, main_cycle: bool) -> bool {
    &&& weekday_of_serial(s) == Weekday::Wednesday
    &&& 15 <= day_of_serial(s) <= 21
    &&& main_cycle ==> (month_of_serial(s) == 3 || month_of_serial(s) == 6 || month_of_serial(s)
        == 9 || month_of_serial(s) == 12)
}

/// The letter of IMM month number `m`.
pub open spec fn imm_month_letter(m: int) -> char {
    if m == 1 {
        'F'
    } else if m == 2 {
        'G'
    } else if m == 3 {
        'H'
    } else if m == 4 {
        'J'
    } else if m == 5 {
        'K'
    } else if m == 6 {
        'M'
    } else if m == 7 {
        'N'
    } else if m == 8 {
        'Q'
    } else if m == 9 {
        'U'
    } else if m == 10 {
        'V'
    } else if m == 11 {
        'X'
    } else {
        'Z'
    }
}

/// The month number of an upper-case IMM month letter; 0 for other bytes.
pub open spec fn imm_letter_month(b: u8) -> int {
    if b == 70 {
        1
    } else if b == 71 {
        2
    } else if b == 72 {
        3
    } else if b == 74 {
        4
    } else if b == 75 {
        5
    } else if b == 77 {
        6
    } else if b == 78 {
        7
    } else if b == 81 {
        8
    } else if b == 85 {
        9
    } else if b == 86 {
        10
    } else if b == 88 {
        11
    } else if b == 90 {
        12
    } else {
        0
    }
}

/// ASCII upper case of a byte.
pub open spec fn ascii_upper(b: u8) -> u8 {
    if 97 <= b <= 122 {
        (b - 32) as u8
    } else {
        b
    }
}

/// Whether the byte is an ASCII digit.
pub open spec fn is_ascii_digit(b: u8) -> bool {
    48 <= b <= 57
}

/// Whether the bytes form an IMM code: a month letter (either case; H, M, U or Z for the main
/// cycle) followed by a digit.
pub open spec fn is_imm_code_spec(bytes: Seq<u8>, main_cycle: bool) -> bool {
    &&& bytes.len() == 2
    &&& is_ascii_digit(bytes[1])
    &&& imm_letter_month(ascii_upper(bytes[0])) != 0
    &&& main_cycle ==> (ascii_upper(bytes[0]) == 72 || ascii_upper(bytes[0]) == 77 || ascii_upper(
        bytes[0],
    ) == 85 || ascii_upper(bytes[0]) == 90)
}

/// Strings that the IMM code functions can look into: a string of two bytes must start with
/// a one-byte character.
pub open spec fn is_inspectable_code(code: &str) -> bool {
    code.spec_bytes().len() == 2 ==> code.spec_bytes()[0] < 128
}

/// std's `format!("{}{}", first, second)`.
/// Claimed of std: the string made of the two characters.
#[verifier::external_body]
fn two_char_string(first: char, second: char) -> (r: String)
    ensures
        r@ == seq![first, second],
{
    format!("{}{}", first, second)
}

/// The month (year, month number) from which the next IMM date is sought, for a reference
/// day `y-m-d`: the next month of the cycle, or the reference month itself when it belongs to
/// the cycle and its third Wednesday may still be ahead (day 21 or earlier).
pub open spec fn imm_search_month(y: int, m: int, d: int, main_cycle: bool) -> (int, int) {
    let offset: int = if main_cycle {
        3
    } else {
        1
    };
    let skip = offset - (m % offset);
    if skip != offset || d > 21 {
        let k = skip + m;
        if k <= 12 {
            (y, k)
        } else {
            (y + 1, k - 12)
        }
    } else {
        (y, m)
    }
}

/// Serial number of the third Wednesday of month `m` of year `y`.
pub open spec fn third_wednesday(y: int, m: int) -> int {
    serial_of(y, m, nth_weekday_day(3, Weekday::Wednesday, m, y))
}

/// The first candidate for the IMM date after the date with serial number `s`.
pub open spec fn imm_candidate(s: int, main_cycle: bool) -> int {
    let t = ymd_of_serial(s);
    let ym = imm_search_month(t.0, t.1, t.2, main_cycle);
    third_wednesday(ym.0, ym.1)
}

/// The next IMM date after the date with serial number `s`: the first candidate if it is
/// later than `s`, else the candidate found from the 22nd of the candidate's month.
pub open spec fn next_imm_date(s: int, main_cycle: bool) -> int {
    let r = imm_candidate(s, main_cycle);
    if r <= s {
        let t = ymd_of_serial(s);
        let ym = imm_search_month(t.0, t.1, t.2, main_cycle);
        imm_candidate(serial_of(ym.0, ym.1, 22), main_cycle)
    } else {
        r
    }
}

/// Whether the next IMM date after the date with serial number `s` lies before the year 2200.
pub open spec fn has_next_imm_date(s: int, main_cycle: bool) -> bool {
    let t = ymd_of_serial(s);
    let ym = imm_search_month(t.0, t.1, t.2, main_cycle);
    let ym2 = imm_search_month(ym.0, ym.1, 22, main_cycle);
    ym.0 < 2200 && (third_wednesday(ym.0, ym.1) <= s ==> ym2.0 < 2200)
}

/// The third weekday of any kind in a month falls between the 15th and the 21st.
proof fn lemma_third_weekday_day(dow: Weekday, m: int, y: int)
    ensures
        15 <= nth_weekday_day(3, dow, m, y) <= 21,
{
    crate::datetime::weekday::lemma_weekday_number_roundtrip(dow);
    let f = weekday_of_serial(serial_of(y, m, 1));
    crate::datetime::weekday::lemma_weekday_number_roundtrip(f);
}

/// The third Wednesday of a month between 1900 and 2199 is a valid date, a Wednesday between
/// the 15th and the 21st of that month.
pub proof fn lemma_third_wednesday(y: int, m: int)
    requires
        1900 <= y < 2200,
        1 <= m <= 12,
    ensures
        is_valid_serial(third_wednesday(y, m)),
        ymd_of_serial(third_wednesday(y, m)) == (y, m, nth_weekday_day(
            3,
            Weekday::Wednesday,
            m,
            y,
        )),
        weekday_of_serial(third_wednesday(y, m)) == Weekday::Wednesday,
        15 <= day_of_serial(third_wednesday(y, m)) <= 21,
{
    lemma_third_weekday_day(Weekday::Wednesday, m, y);
    let d = nth_weekday_day(3, Weekday::Wednesday, m, y);
    lemma_serial_roundtrip(y, m, d);
    lemma_serial_roundtrip(y, m, 1);
    let s1 = serial_of(y, m, 1);
    let first = weekday_of_serial(s1).number();
    let k: int = if Weekday::Wednesday.number() >= first {
        2
    } else {
        3
    };
    lemma_weekday_shift(s1, Weekday::Wednesday, k);
    assert(third_wednesday(y, m) == s1 + Weekday::Wednesday.number() - first + 7 * k);
}

/// The month from which the next IMM date is sought is the reference month or a later one,
/// strictly later when the reference day is after the 21st; it belongs to the main cycle when
/// that is asked for.
proof fn lemma_search_month(y: int, m: int, d: int, main_cycle: bool)
    requires
        1 <= m <= 12,
    ensures
        1 <= imm_search_month(y, m, d, main_cycle).1 <= 12,
        imm_search_month(y, m, d, main_cycle).0 == y || imm_search_month(y, m, d, main_cycle).0
            == y + 1,
        imm_search_month(y, m, d, main_cycle).0 == y ==> imm_search_month(y, m, d, main_cycle).1
            >= m,
        d > 21 && imm_search_month(y, m, d, main_cycle).0 == y ==> imm_search_month(
            y,
            m,
            d,
            main_cycle,
        ).1 > m,
        main_cycle ==> imm_search_month(y, m, d, main_cycle).1 % 3 == 0,
{
}

/// After the 21st of a month, the first candidate is already a later date.
proof fn lemma_candidate_after_21st(s: int, main_cycle: bool)
    requires
        is_valid_serial(s),
        day_of_serial(s) > 21,
        imm_search_month(
            year_of_serial(s),
            month_of_serial(s),
            day_of_serial(s),
            main_cycle,
        ).0 < 2200,
    ensures
        imm_candidate(s, main_cycle) > s,
{
    lemma_serial_has_date(s);
    let t = ymd_of_serial(s);
    lemma_search_month(t.0, t.1, t.2, main_cycle);
    let ym = imm_search_month(t.0, t.1, t.2, main_cycle);
    lemma_third_wednesday(ym.0, ym.1);
    let w = nth_weekday_day(3, Weekday::Wednesday, ym.1, ym.0);
    lemma_third_weekday_day(Weekday::Wednesday, ym.1, ym.0);
    lemma_day_number_order(t.0, t.1, t.2, ym.0, ym.1, w);
}

/// The reference date of the IMM functions: the given date, or the evaluation date in place
/// of the null date (January 1st, 1900).
pub open spec fn imm_reference(eval: int, s: int) -> int {
    if s == MINIMUM_SERIAL_NUMBER {
        eval
    } else {
        s
    }
}

/// The month number of the IMM code `bytes`.
pub open spec fn imm_code_month(bytes: Seq<u8>) -> int {
    imm_letter_month(ascii_upper(bytes[0]))
}

/// The first year considered for the IMM code `bytes` seen from year `ref_year`: the year of
/// the decade of `ref_year` that ends in the code's digit (a digit 0 before 1909 counts as
/// 1910).
pub open spec fn imm_code_year(bytes: Seq<u8>, ref_year: int) -> int {
    let digit = bytes[1] - 48;
    let y = if digit == 0 && ref_year < 1909 {
        10
    } else {
        digit
    };
    y + ref_year - ref_year % 10
}

/// The IMM date of code `bytes` seen from the date with serial number `r`: the next IMM
/// date from the first day of the code's month in the code's year of the decade, or ten years
/// later when that is before `r`.  (Like every date given to the IMM functions, the first day
/// of January 1900 stands for the evaluation date `eval`.)
pub open spec fn imm_code_date(bytes: Seq<u8>, r: int, eval: int) -> int {
    let y = imm_code_year(bytes, year_of_serial(r));
    let m = imm_code_month(bytes);
    let first = next_imm_date(imm_reference(eval, serial_of(y, m, 1)), false);
    if first < r {
        next_imm_date(serial_of(y + 10, m, 1), false)
    } else {
        first
    }
}

/// Whether the IMM date of code `bytes` seen from the date with serial number `r` lies
/// before the year 2200.
pub open spec fn has_imm_code_date(bytes: Seq<u8>, r: int, eval: int) -> bool {
    let y = imm_code_year(bytes, year_of_serial(r));
    let m = imm_code_month(bytes);
    let first = next_imm_date(imm_reference(eval, serial_of(y, m, 1)), false);
    &&& y < 2200
    &&& has_next_imm_date(imm_reference(eval, serial_of(y, m, 1)), false)
    &&& first < r ==> y + 10 < 2200
}

impl IMM {
    /// The IMM functions, with the pricing context whose evaluation date stands in for the
    /// null date.
    pub fn new(pricing_context: PricingContext) -> (r: Self)
        ensures
            r.pricing_context() == pricing_context,
    {
        Self { pricing_context }
    }

    /// The pricing context.
    pub closed spec fn pricing_context(self) -> PricingContext {
        self.pricing_context
    }

    /// Returns whether or not the given date is an IMM date
    pub fn is_imm_date(&self, date: &Date, main_cycle: bool) -> (r: bool)
        ensures
            r == is_imm_date_spec(date@, main_cycle),
    {
        if date.weekday() != Weekday::Wednesday {
            return false;
        }
        let d = date.day_of_month();
        if !(15 <= d && d <= 21) {
            return false;
        }
        if !main_cycle {
            return true;
        }
        match date.month() {
            Month::March | Month::June | Month::September | Month::December => true,
            _ => false,
        }
    }

    /// Returns whether or not the given `input` string is an IMM code
    pub fn is_imm_code(&self, input: &str, main_cycle: bool) -> (r: bool)
        requires
            is_inspectable_code(input),
        ensures
            r == is_imm_code_spec(input.spec_bytes(), main_cycle),
    {
        let bytes = input.as_bytes();
        if bytes.len() != 2 {
            return false;
        }
        let digit = bytes[1];
        if !(48 <= digit && digit <= 57) {
            return false;
        }
        let letter = bytes[0];
        let upper = if 97 <= letter && letter <= 122 {
            letter - 32
        } else {
            letter
        };
        if main_cycle {
            upper == 72 || upper == 77 || upper == 85 || upper == 90
        } else {
            imm_letter_to_month(upper) != 0
        }
    }

    /// The evaluation date of the pricing context, or the date itself unless it is the null
    /// date.
    fn reference_date(&self, date: &Date) -> (r: Date)
        ensures
            r@ == imm_reference(self.pricing_context().eval_date@, date@),
            is_valid_serial(r@),
    {
        let r = if date.serial_number() == MINIMUM_SERIAL_NUMBER {
            self.pricing_context.eval_date
        } else {
            *date
        };
        let _ = r.serial_number();
        r
    }

    /// Next IMM date following the given date.
    ///
    /// Returns the 1st delivery date for next contract listed in the International Money Market
    /// section of the Chicago Mercantile Exchange.
    pub fn next_date(&self, date: &Date, main_cycle: bool) -> (r: Date)
        requires
            has_next_imm_date(imm_reference(self.pricing_context().eval_date@, date@), main_cycle),
        ensures
            r@ == next_imm_date(imm_reference(self.pricing_context().eval_date@, date@), main_cycle),
            r@ > imm_reference(self.pricing_context().eval_date@, date@),
            is_imm_date_spec(r@, main_cycle),
            is_imm_date_spec(r@, false),
            forall|x: int|
                is_valid_serial(x) && imm_reference(self.pricing_context().eval_date@, date@) < x
                    < r@ ==> !is_imm_date_spec(x, main_cycle),
            forall|x: int|
                is_valid_serial(x) && imm_reference(self.pricing_context().eval_date@, date@) < x
                    && #[trigger] is_imm_date_spec(x, main_cycle) ==> r@ <= x,
        decreases (if day_of_serial(date@) > 21 && date@ != MINIMUM_SERIAL_NUMBER {
            0int
        } else {
            1int
        }),
    {
        let ref_date = self.reference_date(date);
        let ghost s = ref_date@;
        let ghost t = ymd_of_serial(s);
        proof {
            lemma_serial_has_date(s);
            lemma_search_month(t.0, t.1, t.2, main_cycle);
            lemma_next_imm_date(s, main_cycle);
            if day_of_serial(date@) > 21 && date@ != MINIMUM_SERIAL_NUMBER {
                lemma_candidate_after_21st(s, main_cycle);
            }
        }
        let mut y = ref_date.year();
        let mut m = ref_date.month();
        let offset: i32 = if main_cycle {
            3
        } else {
            1
        };
        let mut skip_months = offset - (m.to_integer() % offset);
        if skip_months != offset || ref_date.day_of_month() > 21 {
            skip_months += m.to_integer();
            if skip_months <= 12 {
                m = Month::from_integer(skip_months);
            } else {
                m = Month::from_integer(skip_months - 12);
                y += 1;
            }
        }
        assert((y as int, m.number()) == imm_search_month(t.0, t.1, t.2, main_cycle));
        proof {
            lemma_third_weekday_day(Weekday::Wednesday, m.number(), y as int);
        }
        let mut result = Date::nth_weekday(3, Weekday::Wednesday, m, y);
        if result <= ref_date {
            let next = Date::new(22, m, y);
            proof {
                lemma_second_candidate(s, main_cycle);
            }
            result = self.next_date(&next, main_cycle);
        }
        proof {
            assert forall|x: int| is_valid_serial(x) && s < x < result@ implies !is_imm_date_spec(
                x,
                main_cycle,
            ) by {
                lemma_next_imm_date_least(s, main_cycle, x);
            }
            assert forall|x: int| is_valid_serial(x) && s < x && #[trigger] is_imm_date_spec(
                x,
                main_cycle,
            ) implies result@ <= x by {
                if x < result@ {
                    lemma_next_imm_date_least(s, main_cycle, x);
                }
            }
        }
        result
    }

    /// Returns the IMM date for the given IMM code (e.g. March 20th, 2013 for H3).
    pub fn date(&self, imm_code: &str, reference_date: &Date) -> (r: Date)
        requires
            is_inspectable_code(imm_code),
            is_imm_code_spec(imm_code.spec_bytes(), false),
            has_imm_code_date(
                imm_code.spec_bytes(),
                imm_reference(self.pricing_context().eval_date@, reference_date@),
                self.pricing_context().eval_date@,
            ),
        ensures
            r@ == imm_code_date(
                imm_code.spec_bytes(),
                imm_reference(self.pricing_context().eval_date@, reference_date@),
                self.pricing_context().eval_date@,
            ),
    {
        let reference_date = self.reference_date(reference_date);
        let (month, mut y) = code_month_and_digit(imm_code);

        // year < 1900 are not valid years: to avoid a run-time
        // exception few lines below we need to add 10 years right away
        if y == 0 && reference_date.year() < 1909 {
            y += 10;
        }
        let reference_year = reference_date.year() % 10;
        y += reference_date.year() - reference_year;
        proof {
            lemma_code_year(imm_code.spec_bytes(), reference_date@);
            assert(y == imm_code_year(imm_code.spec_bytes(), year_of_serial(reference_date@)));
        }
        let first = Date::new(1, month, y);
        let result = self.next_date(&first, false);
        if result < reference_date {
            let later = Date::new(1, month, y + 10);
            proof {
                lemma_serial_roundtrip(y + 10, month.number(), 1);
                lemma_first_of_month_next_imm(y + 10, month.number());
                lemma_known_first_serial(y + 10, month.number());
            }
            return self.next_date(&later, false);
        }
        result
    }

    /// Next IMM date following the given IMM code.
    ///
    /// Returns the 1st delivery date for next contract listed in the International Money Market
    /// section of the Chicago Mercantile Exchange.
    #[verifier::rlimit(30)]
    pub fn next_date_from_code(
        &self,
        imm_code: &str,
        main_cycle: bool,
        reference_date: &Date,
    ) -> (r: Date)
        requires
            is_inspectable_code(imm_code),
            is_imm_code_spec(imm_code.spec_bytes(), false),
            has_imm_code_date(
                imm_code.spec_bytes(),
                imm_reference(self.pricing_context().eval_date@, reference_date@),
                self.pricing_context().eval_date@,
            ),
            is_valid_serial(
                imm_code_date(
                    imm_code.spec_bytes(),
                    imm_reference(self.pricing_context().eval_date@, reference_date@),
                    self.pricing_context().eval_date@,
                ) + 1,
            ),
            has_next_imm_date(
                imm_code_date(
                    imm_code.spec_bytes(),
                    imm_reference(self.pricing_context().eval_date@, reference_date@),
                    self.pricing_context().eval_date@,
                ) + 1,
                main_cycle,
            ),
        ensures
            r@ == next_imm_date(
                imm_code_date(
                    imm_code.spec_bytes(),
                    imm_reference(self.pricing_context().eval_date@, reference_date@),
                    self.pricing_context().eval_date@,
                ) + 1,
                main_cycle,
            ),
            is_imm_date_spec(r@, main_cycle),
            is_imm_date_spec(r@, false),
    {
        let imm_date = self.date(imm_code, reference_date);
        let after = imm_date.add_days(1);
        self.next_date(&after, main_cycle)
    }

    /// Next IMM code following the given date.
    ///
    /// Returns the IMM code for next contract listed in the International Money Market section
    /// of the Chicago Mercantile Exchange.
    pub fn next_code(&self, d: &Date, main_cycle: bool) -> (r: String)
        requires
            has_next_imm_date(imm_reference(self.pricing_context().eval_date@, d@), main_cycle),
        ensures
            r@ == seq![
                imm_month_letter(month_of_serial(next_imm_date(imm_reference(self.pricing_context().eval_date@, d@), main_cycle))),
                (48 + year_of_serial(next_imm_date(imm_reference(self.pricing_context().eval_date@, d@), main_cycle)) % 10) as char,
            ],
    {
        let date = self.next_date(d, main_cycle);
        self.code(&date)
    }

    /// Next IMM code following the given code.
    ///
    /// Returns the IMM code for next contract listed in the International Money Market section
    /// of the Chicago Mercantile Exchange.
    pub fn next_code_from_code(
        &self,
        imm_code: &str,
        main_cycle: bool,
        reference_date: &Date,
    ) -> (r: String)
        requires
            is_inspectable_code(imm_code),
            is_imm_code_spec(imm_code.spec_bytes(), false),
            has_imm_code_date(
                imm_code.spec_bytes(),
                imm_reference(self.pricing_context().eval_date@, reference_date@),
                self.pricing_context().eval_date@,
            ),
            is_valid_serial(
                imm_code_date(
                    imm_code.spec_bytes(),
                    imm_reference(self.pricing_context().eval_date@, reference_date@),
                    self.pricing_context().eval_date@,
                ) + 1,
            ),
            has_next_imm_date(
                imm_code_date(
                    imm_code.spec_bytes(),
                    imm_reference(self.pricing_context().eval_date@, reference_date@),
                    self.pricing_context().eval_date@,
                ) + 1,
                main_cycle,
            ),
        ensures
            ({
                let n = next_imm_date(
                    imm_code_date(
                        imm_code.spec_bytes(),
                        imm_reference(self.pricing_context().eval_date@, reference_date@),
                        self.pricing_context().eval_date@,
                    ) + 1,
                    main_cycle,
                );
                r@ == seq![imm_month_letter(month_of_serial(n)), (48 + year_of_serial(n) % 10) as char]
            }),
    {
        let date = self.next_date_from_code(imm_code, main_cycle, reference_date);
        self.code(&date)
    }

    /// Returns the IMM code for the given date (e.g. H3 for March 20th, 2013).
    pub fn code(&self, date: &Date) -> (r: String)
        requires
            is_imm_date_spec(date@, false),
        ensures
            r@ == seq![
                imm_month_letter(month_of_serial(date@)),
                (48 + year_of_serial(date@) % 10) as char,
            ],
    {
        let y = date.year() % 10;
        let digit = ((48 + y) as u8) as char;
        let letter = match date.month() {
            Month::January => 'F',
            Month::February => 'G',
            Month::March => 'H',
            Month::April => 'J',
            Month::May => 'K',
            Month::June => 'M',
            Month::July => 'N',
            Month::August => 'Q',
            Month::September => 'U',
            Month::October => 'V',
            Month::November => 'X',
            Month::December => 'Z',
        };
        two_char_string(letter, digit)
    }
}

/// The month and the digit of an IMM code.
fn code_month_and_digit(imm_code: &str) -> (r: (Month, i32))
    requires
        is_imm_code_spec(imm_code.spec_bytes(), false),
    ensures
        r.0.number() == imm_code_month(imm_code.spec_bytes()),
        r.1 == imm_code.spec_bytes()[1] - 48,
        0 <= r.1 <= 9,
{
    let bytes = imm_code.as_bytes();
    let letter = bytes[0];
    let upper = if 97 <= letter && letter <= 122 {
        letter - 32
    } else {
        letter
    };
    let month = Month::from_integer(imm_letter_to_month(upper));
    let digit = (bytes[1] - 48) as i32;
    (month, digit)
}

fn imm_letter_to_month(b: u8) -> (r: i32)
    ensures
        r == imm_letter_month(b),
{
    match b {
        70 => 1,
        71 => 2,
        72 => 3,
        74 => 4,
        75 => 5,
        77 => 6,
        78 => 7,
        81 => 8,
        85 => 9,
        86 => 10,
        88 => 11,
        90 => 12,
        _ => 0,
    }
}


/// When the first candidate is not later than the reference date, the search goes on from the
/// 22nd of the candidate's month, whose first candidate is later than that 22nd.
proof fn lemma_second_candidate(s: int, main_cycle: bool)
    requires
        is_valid_serial(s),
        has_next_imm_date(s, main_cycle),
        imm_candidate(s, main_cycle) <= s,
    ensures
        ({
            let t = ymd_of_serial(s);
            let ym = imm_search_month(t.0, t.1, t.2, main_cycle);
            let s22 = serial_of(ym.0, ym.1, 22);
            &&& is_valid_serial(s22)
            &&& ymd_of_serial(s22) == (ym.0, ym.1, 22int)
            &&& s22 != MINIMUM_SERIAL_NUMBER
            &&& imm_candidate(s22, main_cycle) > s22
            &&& has_next_imm_date(s22, main_cycle)
            &&& next_imm_date(s22, main_cycle) == imm_candidate(s22, main_cycle)
        }),
{
    lemma_serial_has_date(s);
    let t = ymd_of_serial(s);
    lemma_search_month(t.0, t.1, t.2, main_cycle);
    let ym = imm_search_month(t.0, t.1, t.2, main_cycle);
    lemma_serial_roundtrip(ym.0, ym.1, 22);
    let s22 = serial_of(ym.0, ym.1, 22);
    lemma_known_first_serial(ym.0, ym.1);
    lemma_candidate_after_21st(s22, main_cycle);
}

proof fn lemma_known_first_serial(y: int, m: int)
    requires
        1900 <= y < 2200,
        1 <= m <= 12,
    ensures
        serial_of(y, m, 22) > MINIMUM_SERIAL_NUMBER,
        y > 1900 ==> serial_of(y, m, 1) > MINIMUM_SERIAL_NUMBER,
{
    lemma_serial_roundtrip(1900, 1, 1);
    lemma_day_number_order(1900, 1, 1, y, m, 22);
    lemma_day_number_order(1900, 1, 1, y, m, 1);
}

proof fn lemma_code_year(bytes: Seq<u8>, r: int)
    requires
        is_valid_serial(r),
        is_imm_code_spec(bytes, false),
    ensures
        1900 <= imm_code_year(bytes, year_of_serial(r)) <= year_of_serial(r) + 10,
        year_of_serial(r) <= imm_code_year(bytes, year_of_serial(r)) + 10,
        1 <= imm_code_month(bytes) <= 12,
{
    lemma_serial_has_date(r);
    let yr = year_of_serial(r);
    vstd::arithmetic::div_mod::lemma_fundamental_div_mod(yr, 10);
    assert(yr - yr % 10 >= 1900);
    if yr < 1910 {
        assert(yr - yr % 10 == 1900);
    }
    assert(0 <= bytes[1] - 48 <= 9);
}

/// Seen from the first day of a month, the next IMM date (outside the main cycle) is the
/// third Wednesday of that month.
pub proof fn lemma_first_of_month_next_imm(y: int, m: int)
    requires
        1900 <= y < 2200,
        1 <= m <= 12,
    ensures
        has_next_imm_date(serial_of(y, m, 1), false),
        next_imm_date(serial_of(y, m, 1), false) == third_wednesday(y, m),
{
    lemma_serial_roundtrip(y, m, 1);
    lemma_third_wednesday(y, m);
    let w = nth_weekday_day(3, Weekday::Wednesday, m, y);
    lemma_day_number_order(y, m, 1, y, m, w);
}

/// The next IMM date is a later date, and an IMM date (of the main cycle when that is asked
/// for).
pub proof fn lemma_next_imm_date(s: int, main_cycle: bool)
    requires
        is_valid_serial(s),
        has_next_imm_date(s, main_cycle),
    ensures
        is_valid_serial(next_imm_date(s, main_cycle)),
        next_imm_date(s, main_cycle) > s,
        is_imm_date_spec(next_imm_date(s, main_cycle), main_cycle),
        is_imm_date_spec(next_imm_date(s, main_cycle), false),
{
    lemma_serial_has_date(s);
    let t = ymd_of_serial(s);
    lemma_search_month(t.0, t.1, t.2, main_cycle);
    let ym = imm_search_month(t.0, t.1, t.2, main_cycle);
    lemma_third_wednesday(ym.0, ym.1);
    if third_wednesday(ym.0, ym.1) <= s {
        lemma_serial_roundtrip(ym.0, ym.1, 22);
        let s22 = serial_of(ym.0, ym.1, 22);
        lemma_search_month(ym.0, ym.1, 22, main_cycle);
        let ym2 = imm_search_month(ym.0, ym.1, 22, main_cycle);
        lemma_third_wednesday(ym2.0, ym2.1);
        lemma_candidate_after_21st(s22, main_cycle);
        let w = nth_weekday_day(3, Weekday::Wednesday, ym.1, ym.0);
        lemma_third_weekday_day(Weekday::Wednesday, ym.1, ym.0);
        lemma_day_number_order(ym.0, ym.1, w, ym.0, ym.1, 22);
    }
}

/// The IMM date of a code is never before the date it is seen from, and it is an IMM date
/// of the code's month.
pub proof fn lemma_imm_code_date_not_before(bytes: Seq<u8>, r: int, eval: int)
    requires
        is_valid_serial(r),
        is_valid_serial(eval),
        is_imm_code_spec(bytes, false),
        has_imm_code_date(bytes, r, eval),
    ensures
        is_valid_serial(imm_code_date(bytes, r, eval)),
        imm_code_date(bytes, r, eval) >= r,
        is_imm_date_spec(imm_code_date(bytes, r, eval), false),
{
    lemma_code_year(bytes, r);
    lemma_serial_has_date(r);
    let t = ymd_of_serial(r);
    let y = imm_code_year(bytes, t.0);
    let m = imm_code_month(bytes);
    lemma_serial_roundtrip(y, m, 1);
    lemma_next_imm_date(imm_reference(eval, serial_of(y, m, 1)), false);
    let first = next_imm_date(imm_reference(eval, serial_of(y, m, 1)), false);
    if first < r {
        lemma_serial_roundtrip(y + 10, m, 1);
        lemma_first_of_month_next_imm(y + 10, m);
        lemma_third_wednesday(y + 10, m);
        let w = nth_weekday_day(3, Weekday::Wednesday, m, y + 10);
        lemma_day_number_order(t.0, t.1, t.2, y + 10, m, w);
    }
}

/// Month order: month `m1` of year `y1` comes before month `m2` of year `y2`.
pub open spec fn month_before(y1: int, m1: int, y2: int, m2: int) -> bool {
    y1 < y2 || (y1 == y2 && m1 < m2)
}

/// The third Wednesdays of months follow the order of the months.
proof fn lemma_third_wednesday_order(y1: int, m1: int, y2: int, m2: int)
    requires
        1900 <= y1 < 2200,
        1900 <= y2 < 2200,
        1 <= m1 <= 12,
        1 <= m2 <= 12,
        month_before(y1, m1, y2, m2),
    ensures
        third_wednesday(y1, m1) < third_wednesday(y2, m2),
{
    lemma_third_wednesday(y1, m1);
    lemma_third_wednesday(y2, m2);
    lemma_third_weekday_day(Weekday::Wednesday, m1, y1);
    lemma_third_weekday_day(Weekday::Wednesday, m2, y2);
    let w1 = nth_weekday_day(3, Weekday::Wednesday, m1, y1);
    let w2 = nth_weekday_day(3, Weekday::Wednesday, m2, y2);
    lemma_day_number_order(y1, m1, w1, y2, m2, w2);
}

/// The month after month `m` of year `y`.
pub open spec fn next_month(y: int, m: int) -> (int, int) {
    if m == 12 {
        (y + 1, 1)
    } else {
        (y, m + 1)
    }
}

/// The month that the next IMM date of any month is sought from is the reference month, or
/// the one after it once its 21st has passed; the month for the main cycle is never earlier,
/// and is later when the reference month is not a main-cycle month or its 21st has passed.
proof fn lemma_search_months_compared(y: int, m: int, d: int)
    requires
        1 <= m <= 12,
    ensures
        imm_search_month(y, m, d, false) == (if d > 21 {
            next_month(y, m)
        } else {
            (y, m)
        }),
        imm_search_month(y, m, d, true) == (y, m) || month_before(
            y,
            m,
            imm_search_month(y, m, d, true).0,
            imm_search_month(y, m, d, true).1,
        ),
        d > 21 ==> imm_search_month(y, m, d, true) == next_month(y, m) || month_before(
            next_month(y, m).0,
            next_month(y, m).1,
            imm_search_month(y, m, d, true).0,
            imm_search_month(y, m, d, true).1,
        ),
        imm_search_month(y, m, d, true) == (y, m) ==> imm_search_month(y, m, 22, true) != next_month(y, m)
            && month_before(
            next_month(y, m).0,
            next_month(y, m).1,
            imm_search_month(y, m, 22, true).0,
            imm_search_month(y, m, 22, true).1,
        ),
{
    assert(m == 1 || m == 2 || m == 3 || m == 4 || m == 5 || m == 6 || m == 7 || m == 8 || m == 9
        || m == 10 || m == 11 || m == 12);
}

/// The month whose third Wednesday is the next IMM date after the date with serial number
/// `s`.
pub open spec fn next_imm_month(s: int, main_cycle: bool) -> (int, int) {
    let t = ymd_of_serial(s);
    let ym = imm_search_month(t.0, t.1, t.2, main_cycle);
    if third_wednesday(ym.0, ym.1) <= s {
        imm_search_month(ym.0, ym.1, 22, main_cycle)
    } else {
        ym
    }
}

proof fn lemma_next_imm_month(s: int, main_cycle: bool)
    requires
        is_valid_serial(s),
        has_next_imm_date(s, main_cycle),
    ensures
        next_imm_date(s, main_cycle) == third_wednesday(
            next_imm_month(s, main_cycle).0,
            next_imm_month(s, main_cycle).1,
        ),
        1900 <= next_imm_month(s, main_cycle).0 < 2200,
        1 <= next_imm_month(s, main_cycle).1 <= 12,
{
    lemma_serial_has_date(s);
    let t = ymd_of_serial(s);
    lemma_search_month(t.0, t.1, t.2, main_cycle);
    let ym = imm_search_month(t.0, t.1, t.2, main_cycle);
    if third_wednesday(ym.0, ym.1) <= s {
        lemma_serial_roundtrip(ym.0, ym.1, 22);
        lemma_search_month(ym.0, ym.1, 22, main_cycle);
    }
}

/// The next IMM date of any month comes no later than the next one of the main cycle.
pub proof fn lemma_next_imm_date_before_main_cycle(s: int)
    requires
        is_valid_serial(s),
        has_next_imm_date(s, false),
        has_next_imm_date(s, true),
    ensures
        next_imm_date(s, false) <= next_imm_date(s, true),
{
    lemma_next_imm_month(s, false);
    lemma_next_imm_month(s, true);
    lemma_serial_has_date(s);
    let t = ymd_of_serial(s);
    let y = t.0;
    let m = t.1;
    let d = t.2;
    lemma_search_months_compared(y, m, d);
    let ymf = imm_search_month(y, m, d, false);
    let ymt = imm_search_month(y, m, d, true);
    lemma_search_months_compared(ymt.0, ymt.1, 22);
    let mf = next_imm_month(s, false);
    let mt = next_imm_month(s, true);
    assert(mt == ymt || month_before(ymt.0, ymt.1, mt.0, mt.1));
    if d > 21 {
        lemma_candidate_after_21st(s, false);
        assert(mf == ymf);
    } else if third_wednesday(y, m) > s {
        assert(mf == (y, m));
    } else {
        lemma_search_months_compared(y, m, 22);
        assert(mf == next_month(y, m));
        if ymt == (y, m) {
            assert(mt == imm_search_month(y, m, 22, true));
        }
    }
    if mf != mt {
        assert(month_before(mf.0, mf.1, mt.0, mt.1));
        lemma_third_wednesday_order(mf.0, mf.1, mt.0, mt.1);
    }
}

/// The month that the next IMM date is sought from is the first month of the cycle that is
/// not before the reference month, and after it once the reference day is past the 21st.
proof fn lemma_search_month_first(y: int, m: int, d: int, main_cycle: bool, y2: int, m2: int)
    requires
        1 <= m <= 12,
        1 <= m2 <= 12,
        main_cycle ==> m2 % 3 == 0,
        !month_before(y2, m2, y, m),
        d > 21 ==> (y2, m2) != (y, m),
    ensures
        !month_before(
            y2,
            m2,
            imm_search_month(y, m, d, main_cycle).0,
            imm_search_month(y, m, d, main_cycle).1,
        ),
{
    assert(m == 1 || m == 2 || m == 3 || m == 4 || m == 5 || m == 6 || m == 7 || m == 8 || m == 9
        || m == 10 || m == 11 || m == 12);
    assert(m2 == 1 || m2 == 2 || m2 == 3 || m2 == 4 || m2 == 5 || m2 == 6 || m2 == 7 || m2 == 8
        || m2 == 9 || m2 == 10 || m2 == 11 || m2 == 12);
}

/// An IMM date later than the reference date lies in a month of the cycle that is not before
/// the month the next IMM date is sought from.
proof fn lemma_later_imm_month(s: int, main_cycle: bool, x: int)
    requires
        is_valid_serial(s),
        is_valid_serial(x),
        s < x,
        is_imm_date_spec(x, main_cycle),
    ensures
        ({
            let t = ymd_of_serial(s);
            let ym = imm_search_month(t.0, t.1, t.2, main_cycle);
            !month_before(year_of_serial(x), month_of_serial(x), ym.0, ym.1)
        }),
{
    lemma_serial_has_date(s);
    lemma_serial_has_date(x);
    let t = ymd_of_serial(s);
    let u = ymd_of_serial(x);
    lemma_day_number_order(u.0, u.1, u.2, t.0, t.1, t.2);
    lemma_day_number_order(t.0, t.1, t.2, u.0, u.1, u.2);
    lemma_search_month_first(t.0, t.1, t.2, main_cycle, u.0, u.1);
}

/// No IMM date lies strictly between a date and the next IMM date after it.
pub proof fn lemma_next_imm_date_least(s: int, main_cycle: bool, x: int)
    requires
        is_valid_serial(s),
        is_valid_serial(x),
        has_next_imm_date(s, main_cycle),
        s < x < next_imm_date(s, main_cycle),
    ensures
        !is_imm_date_spec(x, main_cycle),
{
    if is_imm_date_spec(x, main_cycle) {
        lemma_serial_has_date(s);
        lemma_serial_has_date(x);
        let t = ymd_of_serial(s);
        let u = ymd_of_serial(x);
        lemma_search_month(t.0, t.1, t.2, main_cycle);
        let ym = imm_search_month(t.0, t.1, t.2, main_cycle);
        lemma_next_imm_month(s, main_cycle);
        let mn = next_imm_month(s, main_cycle);
        lemma_imm_date_is_third_wednesday(x);
        lemma_later_imm_month(s, main_cycle, x);
        // the month of x comes before the month of the next IMM date
        if !month_before(u.0, u.1, mn.0, mn.1) {
            if (u.0, u.1) == mn {
                assert(false);
            } else {
                lemma_third_wednesday_order(mn.0, mn.1, u.0, u.1);
                assert(false);
            }
        }
        if third_wednesday(ym.0, ym.1) <= s {
            lemma_search_month(ym.0, ym.1, 22, main_cycle);
            if month_before(ym.0, ym.1, u.0, u.1) {
                lemma_search_month_first(ym.0, ym.1, 22, main_cycle, u.0, u.1);
            }
            assert((u.0, u.1) == (ym.0, ym.1));
        }
    }
}

/// The bytes of the IMM code of the date with serial number `s`.
pub open spec fn imm_code_bytes(s: int) -> Seq<u8> {
    seq![imm_month_letter(month_of_serial(s)) as u8, (48 + year_of_serial(s) % 10) as u8]
}

/// Two Wednesdays less than a week apart are the same day.
proof fn lemma_wednesdays_a_week_apart(a: int, b: int)
    requires
        weekday_of_serial(a) == Weekday::Wednesday,
        weekday_of_serial(b) == Weekday::Wednesday,
        -7 < a - b < 7,
    ensures
        a == b,
{
    vstd::arithmetic::div_mod::lemma_fundamental_div_mod(a, 7);
    vstd::arithmetic::div_mod::lemma_fundamental_div_mod(b, 7);
}

/// An IMM date is the third Wednesday of its month.
proof fn lemma_imm_date_is_third_wednesday(x: int)
    requires
        is_valid_serial(x),
        is_imm_date_spec(x, false),
    ensures
        x == third_wednesday(year_of_serial(x), month_of_serial(x)),
{
    lemma_serial_has_date(x);
    let t = ymd_of_serial(x);
    lemma_third_wednesday(t.0, t.1);
    lemma_third_weekday_day(Weekday::Wednesday, t.1, t.0);
    let dw = nth_weekday_day(3, Weekday::Wednesday, t.1, t.0);
    let w = third_wednesday(t.0, t.1);
    assert(w - x == dw - t.2);
    lemma_wednesdays_a_week_apart(w, x);
}

/// The month letter of an IMM code gives back its month.
proof fn lemma_month_letter_roundtrip(m: int)
    requires
        1 <= m <= 12,
    ensures
        imm_letter_month(ascii_upper(imm_month_letter(m) as u8)) == m,
{
    assert(m == 1 || m == 2 || m == 3 || m == 4 || m == 5 || m == 6 || m == 7 || m == 8 || m == 9
        || m == 10 || m == 11 || m == 12);
}

/// The code bytes of a date: an IMM code of its month and of the last digit of its year.
proof fn lemma_code_bytes_of(x: int)
    requires
        is_valid_serial(x),
    ensures
        is_imm_code_spec(imm_code_bytes(x), false),
        imm_code_month(imm_code_bytes(x)) == month_of_serial(x),
        imm_code_bytes(x)[1] - 48 == year_of_serial(x) % 10,
{
    lemma_serial_has_date(x);
    lemma_month_letter_roundtrip(month_of_serial(x));
    assert(0 <= year_of_serial(x) % 10 <= 9);
}

/// The year with last digit that of `yx` in the decade of `yr` is `yx` itself or ten years
/// before it, or at least twenty years before it.
proof fn lemma_decade_year(yx: int, yr: int)
    requires
        1900 <= yr <= yx,
    ensures
        ({
            let y = yx % 10 + yr - yr % 10;
            &&& yr - 9 <= y <= yr + 9
            &&& (yx == y || yx == y + 10 || yx >= y + 20)
        }),
{
    vstd::arithmetic::div_mod::lemma_fundamental_div_mod(yx, 10);
    vstd::arithmetic::div_mod::lemma_fundamental_div_mod(yr, 10);
    let y = yx % 10 + yr - yr % 10;
    assert((yx - y) % 10 == 0) by {
        vstd::arithmetic::div_mod::lemma_fundamental_div_mod(yx - y, 10);
        assert(yx - y == 10 * (yx / 10 - yr / 10));
        vstd::arithmetic::div_mod::lemma_mod_multiples_basic(yx / 10 - yr / 10, 10);
    }
    assert(yx - y > -10);
    if yx - y > 10 && yx - y < 20 {
        vstd::arithmetic::div_mod::lemma_fundamental_div_mod(yx - y, 10);
    }
    if yx - y > 0 && yx - y < 10 {
        vstd::arithmetic::div_mod::lemma_fundamental_div_mod(yx - y, 10);
    }
    if yx - y < 0 {
        vstd::arithmetic::div_mod::lemma_fundamental_div_mod(yx - y, 10);
    }
}

/// The IMM code of an IMM date gives back that date, seen from a reference date at or before
/// it whose decade holds the date or whose previous IMM date of the same month and last digit
/// of the year comes before the reference (references before 1909 are left out, and, in 1909,
/// January dates of years ending in 0).
pub proof fn lemma_imm_code_roundtrip(x: int, r: int, eval: int)
    requires
        is_valid_serial(x),
        is_valid_serial(r),
        is_imm_date_spec(x, false),
        r <= x,
        year_of_serial(x) - 10 < 1900 || third_wednesday(year_of_serial(x) - 10, month_of_serial(x))
            < r,
        year_of_serial(r) >= 1909,
        !(year_of_serial(r) == 1909 && year_of_serial(x) % 10 == 0 && month_of_serial(x) == 1),
    ensures
        is_imm_code_spec(imm_code_bytes(x), false),
        imm_code_date(imm_code_bytes(x), r, eval) == x,
{
    lemma_serial_has_date(x);
    lemma_serial_has_date(r);
    let tx = ymd_of_serial(x);
    let tr = ymd_of_serial(r);
    let bytes = imm_code_bytes(x);
    lemma_code_bytes_of(x);
    // the reference is not after the date, so neither is its year
    lemma_day_number_order(tx.0, tx.1, tx.2, tr.0, tr.1, tr.2);
    lemma_decade_year(tx.0, tr.0);
    let y = imm_code_year(bytes, tr.0);
    assert(y == tx.0 % 10 + tr.0 - tr.0 % 10);
    lemma_imm_date_is_third_wednesday(x);
    assert(1900 <= y < 2200);
    lemma_first_of_month_next_imm(y, tx.1);
    assert(serial_of(y, tx.1, 1) != MINIMUM_SERIAL_NUMBER) by {
        lemma_serial_roundtrip(y, tx.1, 1);
    }
    if tx.0 == y + 10 {
        lemma_first_of_month_next_imm(y + 10, tx.1);
    } else if tx.0 != y {
        lemma_third_wednesday(tx.0 - 10, tx.1);
        lemma_third_weekday_day(Weekday::Wednesday, tx.1, tx.0 - 10);
        let w = nth_weekday_day(3, Weekday::Wednesday, tx.1, tx.0 - 10);
        lemma_day_number_order(tr.0, tr.1, tr.2, tx.0 - 10, tx.1, w);
    }
}

} // verus!
