# rust_quantlib

Date arithmetic, calendars, schedules and day counting for fixed-income
instruments, written in Verus: every function under `src/` carries a
`requires`/`ensures` contract over mathematical models (dates as serial
numbers, schedules as sequences of serials, year fractions as exact sums of
integer ratios) and is proved against it.

## Layout

- `src/datetime/` — dates (serial numbers, civil fields, weekdays), months,
  periods and time units, business-day conventions, holiday calendars
  (TARGET, United Kingdom, Brazil, Italy, Japan, Switzerland, weekends only,
  no holidays), IMM dates and codes, schedule generation and its builder,
  and the day counters (Actual/Actual in its ISDA, ISMA, old ISMA and AFB
  forms, 30/360 variants, 30/365, One) with the `DayCounter` that chooses
  among them. `schedule_laws.rs` proves that forward and backward schedules
  without the end-of-month rule, adjusted to the following or preceding
  business day or not at all, have increasing dates, and that unadjusted ones
  run from the effective to the termination date.
- `src/currencies/` — currency descriptions and the `Currency` trait.
- `src/instruments/` — CDS maturity rolls, bond price types.
- `src/cashflows/` — the date logic of cash flows and of fixed-rate coupon
  periods (accrual, payment and ex-coupon dates), the next cash flow and
  maturity of a leg, accrued days, and stepwise discount times as exact year
  fractions.
- `src/maths/`, `src/context/` — rounding descriptions, pricing context.
- `app/` — what stays outside verification: the clock, floating-point year
  fractions and money amounts.
- `tests/` — executable tests of the library.

Year fractions are returned as lists of `(numerator, denominator)` terms;
`app/` turns them into `f64`.

The only outside crate is `chrono`, called through one trusted wrapper
(`shift_civil_date` in `src/datetime/date.rs`) for calendar shifts of civil
dates, and from `app/` for the current date.
