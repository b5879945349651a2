//! The calendar model: proleptic-Gregorian dates with four-digit years,
//! a linear day index for day-granularity comparisons, and calendar-month
//! addition (day-of-month clamped to the target month's length).

use vstd::prelude::*;

verus! {

/// True for years with 366 days in the proleptic Gregorian calendar.
pub open spec fn is_leap_year(y: int) -> bool {
    y % 4 == 0 && (y % 100 != 0 || y % 400 == 0)
}

/// Number of days in month `m` of year `y`.
pub open spec fn days_in_month(y: int, m: int) -> int
    recommends
        1 <= m <= 12,
{
    if m == 2 {
        if is_leap_year(y) {
            29
        } else {
            28
        }
    } else if m == 4 || m == 6 || m == 9 || m == 11 {
        30
    } else {
        31
    }
}

/// A calendar date that a four-digit year can express.
pub open spec fn valid_date(y: int, m: int, d: int) -> bool {
    &&& 0 <= y <= 9999
    &&& 1 <= m <= 12
    &&& 1 <= d <= days_in_month(y, m)
}

/// Position of a date on a linear day scale (a Julian-day-style count):
/// two dates compare chronologically as their indices compare, and dates
/// one calendar day apart have indices one apart.
pub open spec fn day_index(y: int, m: int, d: int) -> int
    recommends
        valid_date(y, m, d),
{
    let a = (14 - m) / 12;
    let yy = y + 4800 - a;
    let mm = m + 12 * a - 3;
    d + (153 * mm + 2) / 5 + 365 * yy + yy / 4 - yy / 100 + yy / 400
}

/// Months elapsed since month 1 of year 0.
pub open spec fn month_index(y: int, m: int) -> int
    recommends
        1 <= m <= 12,
{
    12 * y + (m - 1)
}

/// Year of the date `n` calendar months after year `y`, month `m`.
pub open spec fn add_months_year(y: int, m: int, n: int) -> int {
    (month_index(y, m) + n) / 12
}

/// Month of the date `n` calendar months after year `y`, month `m`.
pub open spec fn add_months_month(y: int, m: int, n: int) -> int {
    (month_index(y, m) + n) % 12 + 1
}

/// Day of the date `n` calendar months after (`y`, `m`, `d`): the day of
/// month is kept, clamped to the length of the target month.
pub open spec fn add_months_day(y: int, m: int, d: int, n: int) -> int {
    let y2 = add_months_year(y, m, n);
    let m2 = add_months_month(y, m, n);
    if d <= days_in_month(y2, m2) {
        d
    } else {
        days_in_month(y2, m2)
    }
}

/// The calendar date one day after (`y`, `m`, `d`).
pub open spec fn next_ymd(y: int, m: int, d: int) -> (int, int, int)
    recommends
        valid_date(y, m, d),
{
    if d < days_in_month(y, m) {
        (y, m, d + 1)
    } else if m < 12 {
        (y, m + 1, 1)
    } else {
        (y + 1, 1, 1)
    }
}

/// The day scale counts calendar days: advancing a date by one calendar
/// day raises its index by exactly one. (The last expressible date,
/// 9999-12-31, has no successor on the scale.)
pub proof fn lemma_day_index_counts_days(y: int, m: int, d: int)
    requires
        valid_date(y, m, d),
        !(y == 9999 && m == 12 && d == 31),
    ensures
        valid_date(next_ymd(y, m, d).0, next_ymd(y, m, d).1, next_ymd(y, m, d).2),
        day_index(next_ymd(y, m, d).0, next_ymd(y, m, d).1, next_ymd(y, m, d).2) == day_index(
            y,
            m,
            d,
        ) + 1,
{
    if d < days_in_month(y, m) {
    } else if m == 2 {
        lemma_div_step(y + 4799, 4);
        lemma_div_step(y + 4799, 100);
        lemma_div_step(y + 4799, 400);
    } else {
    }
}

/// For nonnegative `t` and positive `n`, stepping the dividend by one
/// raises the quotient by one exactly when `n` divides `t + 1`.
proof fn lemma_div_step(t: int, n: int)
    requires
        0 <= t,
        1 <= n,
    ensures
        (t + 1) / n == t / n + (if (t + 1) % n == 0 {
            1int
        } else {
            0int
        }),
{
    vstd::arithmetic::div_mod::lemma_fundamental_div_mod(t, n);
    vstd::arithmetic::div_mod::lemma_fundamental_div_mod(t + 1, n);
    vstd::arithmetic::div_mod::lemma_mod_pos_bound(t, n);
    vstd::arithmetic::div_mod::lemma_mod_pos_bound(t + 1, n);
    let q = t / n;
    let r = t % n;
    assert(n * q == q * n) by (nonlinear_arith);
    if r + 1 < n {
        assert(t + 1 == q * n + (r + 1));
        vstd::arithmetic::div_mod::lemma_fundamental_div_mod_converse(t + 1, n, q, r + 1);
    } else {
        assert((q + 1) * n == q * n + n) by (nonlinear_arith);
        assert(t + 1 == (q + 1) * n + 0);
        vstd::arithmetic::div_mod::lemma_fundamental_div_mod_converse(t + 1, n, q + 1, 0);
    }
}

/// A later date sits strictly higher on the day scale: field-by-field
/// comparison and day-index comparison order valid dates the same way.
pub proof fn lemma_day_index_monotone(y1: int, m1: int, d1: int, y2: int, m2: int, d2: int)
    requires
        valid_date(y1, m1, d1),
        valid_date(y2, m2, d2),
        comes_after(y2, m2, d2, y1, m1, d1),
    ensures
        day_index(y2, m2, d2) > day_index(y1, m1, d1),
    decreases (y2 * 12 + m2) * 31 + d2 - ((y1 * 12 + m1) * 31 + d1),
{
    lemma_day_index_counts_days(y1, m1, d1);
    let (ny, nm, nd) = next_ymd(y1, m1, d1);
    if !(ny == y2 && nm == m2 && nd == d2) {
        lemma_day_index_monotone(ny, nm, nd, y2, m2, d2);
    }
}

/// Two valid dates compare field by field exactly as their day indices
/// compare: the two orderings the retention rules use agree.
pub proof fn lemma_order_agreement(y1: int, m1: int, d1: int, y2: int, m2: int, d2: int)
    requires
        valid_date(y1, m1, d1),
        valid_date(y2, m2, d2),
    ensures
        comes_after(y2, m2, d2, y1, m1, d1) <==> day_index(y2, m2, d2) > day_index(y1, m1, d1),
{
    if comes_after(y2, m2, d2, y1, m1, d1) {
        lemma_day_index_monotone(y1, m1, d1, y2, m2, d2);
    } else if comes_after(y1, m1, d1, y2, m2, d2) {
        lemma_day_index_monotone(y2, m2, d2, y1, m1, d1);
    }
}

/// Chronological "strictly later" on year-month-day triples.
pub open spec fn comes_after(y1: int, m1: int, d1: int, y2: int, m2: int, d2: int) -> bool {
    ||| y1 > y2
    ||| (y1 == y2 && m1 > m2)
    ||| (y1 == y2 && m1 == m2 && d1 > d2)
}

/// The date (`y`, `m`, `d`) advanced by `n` calendar months lands strictly
/// after the date `t`.
pub open spec fn shifted_after(y: int, m: int, d: int, n: int, t: Date) -> bool {
    comes_after(
        add_months_year(y, m, n),
        add_months_month(y, m, n),
        add_months_day(y, m, d, n),
        t.year as int,
        t.month as int,
        t.day as int,
    )
}

/// A proleptic-Gregorian calendar date with a four-digit year.
#[derive(Clone, Copy, PartialEq, Eq, Structural, Debug)]
pub struct Date {
    pub year: u32,
    pub month: u32,
    pub day: u32,
}

impl Date {
    /// The fields denote a real calendar date.
    pub open spec fn wf(self) -> bool {
        valid_date(self.year as int, self.month as int, self.day as int)
    }

    /// Builds the date if the fields denote a real calendar date with a
    /// four-digit year, and reports failure otherwise.
    pub fn from_ymd(year: u32, month: u32, day: u32) -> (r: Option<Date>)
        ensures
            match r {
                Some(date) => date.year == year && date.month == month && date.day == day
                    && date.wf(),
                None => !valid_date(year as int, month as int, day as int),
            },
    {
        if year <= 9999 && 1 <= month && month <= 12 && 1 <= day && day <= month_length(
            year as u64,
            month as u64,
        ) as u32 {
            Some(Date { year, month, day })
        } else {
            None
        }
    }

    /// Position of this date on the linear day scale.
    pub fn day_number(&self) -> (r: u64)
        requires
            self.wf(),
        ensures
            r == day_index(self.year as int, self.month as int, self.day as int),
            r <= 6000000,
    {
        let a: u64 = (14 - self.month as u64) / 12;
        let yy: u64 = self.year as u64 + 4800 - a;
        let mm: u64 = self.month as u64 + 12 * a - 3;
        self.day as u64 + (153 * mm + 2) / 5 + 365 * yy + yy / 4 - yy / 100 + yy / 400
    }
}

/// Number of days in month `m` of year `y`.
pub fn month_length(y: u64, m: u64) -> (r: u64)
    requires
        1 <= m <= 12,
    ensures
        r == days_in_month(y as int, m as int),
{
    if m == 2 {
        if y % 4 == 0 && (y % 100 != 0 || y % 400 == 0) {
            29
        } else {
            28
        }
    } else if m == 4 || m == 6 || m == 9 || m == 11 {
        30
    } else {
        31
    }
}

/// The date `n` calendar months after (`y`, `m`, `d`), as a
/// year-month-day triple; the year may exceed four digits.
pub fn add_months(y: u32, m: u32, d: u32, n: u64) -> (r: (u64, u64, u64))
    requires
        valid_date(y as int, m as int, d as int),
        n <= 12 * (u32::MAX as u64),
    ensures
        r.0 == add_months_year(y as int, m as int, n as int),
        r.1 == add_months_month(y as int, m as int, n as int),
        r.2 == add_months_day(y as int, m as int, d as int, n as int),
{
    let idx: u64 = 12 * (y as u64) + (m as u64 - 1) + n;
    let y2: u64 = idx / 12;
    let m2: u64 = idx % 12 + 1;
    let len2: u64 = month_length(y2, m2);
    let d2: u64 = if d as u64 <= len2 {
        d as u64
    } else {
        len2
    };
    (y2, m2, d2)
}

/// Whether (`y`, `m`, `d`) advanced by `n` calendar months lands strictly
/// after `today`.
pub fn shift_lands_after(y: u32, m: u32, d: u32, n: u64, today: &Date) -> (r: bool)
    requires
        valid_date(y as int, m as int, d as int),
        n <= 12 * (u32::MAX as u64),
    ensures
        r == shifted_after(y as int, m as int, d as int, n as int, *today),
{
    let (y2, m2, d2) = add_months(y, m, d, n);
    let ty = today.year as u64;
    let tm = today.month as u64;
    let td = today.day as u64;
    y2 > ty || (y2 == ty && m2 > tm) || (y2 == ty && m2 == tm && d2 > td)
}

} // verus!
