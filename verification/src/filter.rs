//! The retention classifier: extracts the leftmost `YYYY-MM-DD`-shaped
//! substring of a token and applies the grandfather-father-son rules in a
//! fixed priority order, never failing.

use vstd::prelude::*;
use vstd::string::StrSliceExecFns;
use crate::date::{
    comes_after, day_index, shifted_after, valid_date, month_length, shift_lands_after, Date,
};
use crate::pattern::{
    date_shape_at, digit_value_at, find_first_match, first_match, token_day, token_month,
    token_year,
};

verus! {

/// Why a token is retained, or that it is eligible for deletion (`Pass`).
/// The variants are ordered by rule priority: the first rule that applies
/// decides.
#[derive(Clone, Copy, PartialEq, Eq, Structural, Debug)]
pub enum Outcome {
    /// No `YYYY-MM-DD`-shaped substring: age unknown, keep the file.
    FailRegex,
    /// The shaped substring is not a real calendar date: keep the file.
    FailParse,
    /// The embedded date lies strictly after the reference date: keep it.
    FailFuture,
    /// The embedded date plus the day window reaches past the reference
    /// date: keep it.
    FailDays,
    /// A first-of-month date whose month-window shift reaches past the
    /// reference date: keep it.
    FailMonths,
    /// A January-1st date whose year-window shift reaches past the
    /// reference date: keep it.
    FailYears,
    /// No retention rule applies: the token is eligible for deletion.
    Pass,
}

/// The configured classifier: a reference date and the three retention
/// horizons. Immutable after construction; `check` is a pure function of
/// the configuration and the token.
pub struct DateFilter {
    pub today: Date,
    pub days: u32,
    pub months: u32,
    pub years: u32,
}

/// The verdict on a token, as a function of the classifier's
/// configuration and the token's characters: the first rule of the fixed
/// priority order that applies.
pub open spec fn spec_check(f: DateFilter, s: Seq<char>) -> Outcome {
    match first_match(s) {
        None => Outcome::FailRegex,
        Some(i) => {
            let y = token_year(s, i);
            let m = token_month(s, i);
            let d = token_day(s, i);
            let ty = f.today.year as int;
            let tm = f.today.month as int;
            let td = f.today.day as int;
            if !valid_date(y, m, d) {
                Outcome::FailParse
            } else if comes_after(y, m, d, ty, tm, td) {
                Outcome::FailFuture
            } else if day_index(y, m, d) + f.days > day_index(ty, tm, td) {
                Outcome::FailDays
            } else if d == 1 && shifted_after(y, m, d, f.months as int, f.today) {
                Outcome::FailMonths
            } else if d == 1 && m == 1 && shifted_after(y, m, d, 12 * (f.years as int), f.today) {
                Outcome::FailYears
            } else {
                Outcome::Pass
            }
        },
    }
}

impl DateFilter {
    /// The reference date is a real calendar date.
    pub open spec fn wf(self) -> bool {
        self.today.wf()
    }

    /// Builds a classifier from the reference date and the three
    /// retention horizons.
    pub fn new(today: Date, days: u32, months: u32, years: u32) -> (r: DateFilter)
        requires
            today.wf(),
        ensures
            r == (DateFilter { today, days, months, years }),
            r.wf(),
    {
        DateFilter { today, days, months, years }
    }

    /// Classifies one token: the verdict is exactly `spec_check` of the
    /// configuration and the token's characters, for every token.
    pub fn check(&self, name: &str) -> (r: Outcome)
        requires
            self.wf(),
        ensures
            r == spec_check(*self, name@),
    {
        let ghost s = name@;
        let found = find_first_match(name);
        let i = match found {
            None => { return Outcome::FailRegex },
            Some(i) => i,
        };
        proof {
            crate::pattern::lemma_first_match_from_some(s, 0, i as int);
        }

        let y: u32 = 1000 * digit_value_at(name, i) + 100 * digit_value_at(name, i + 1) + 10
            * digit_value_at(name, i + 2) + digit_value_at(name, i + 3);
        let m: u32 = 10 * digit_value_at(name, i + 5) + digit_value_at(name, i + 6);
        let d: u32 = 10 * digit_value_at(name, i + 8) + digit_value_at(name, i + 9);

        if !(1 <= m && m <= 12 && 1 <= d && d <= month_length(y as u64, m as u64) as u32) {
            return Outcome::FailParse;
        }

        let ty = self.today.year;
        let tm = self.today.month;
        let td = self.today.day;
        if y > ty || (y == ty && m > tm) || (y == ty && m == tm && d > td) {
            return Outcome::FailFuture;
        }

        let date = Date { year: y, month: m, day: d };
        if date.day_number() + self.days as u64 > self.today.day_number() {
            return Outcome::FailDays;
        }

        if d == 1 && shift_lands_after(y, m, d, self.months as u64, &self.today) {
            return Outcome::FailMonths;
        }

        if d == 1 && m == 1 && shift_lands_after(y, m, d, 12 * (self.years as u64), &self.today) {
            return Outcome::FailYears;
        }

        Outcome::Pass
    }
}

/// A token with no `YYYY-MM-DD`-shaped substring is classified
/// `FailRegex`, whatever the configuration.
pub proof fn lemma_no_shape_fail_regex(f: DateFilter, s: Seq<char>)
    requires
        forall|j: int| !date_shape_at(s, j),
    ensures
        spec_check(f, s) == Outcome::FailRegex,
{
    crate::pattern::lemma_first_match_none_iff(s);
}

/// A token whose matched substring is not a real calendar date is
/// classified `FailParse`, whatever the configuration.
pub proof fn lemma_invalid_date_fail_parse(f: DateFilter, s: Seq<char>, i: int)
    requires
        first_match(s) == Some(i),
        !valid_date(token_year(s, i), token_month(s, i), token_day(s, i)),
    ensures
        spec_check(f, s) == Outcome::FailParse,
{
}

/// A token whose embedded date lies strictly after the reference date is
/// classified `FailFuture`, whatever the windows.
pub proof fn lemma_future_date_fail_future(f: DateFilter, s: Seq<char>, i: int)
    requires
        first_match(s) == Some(i),
        valid_date(token_year(s, i), token_month(s, i), token_day(s, i)),
        comes_after(
            token_year(s, i),
            token_month(s, i),
            token_day(s, i),
            f.today.year as int,
            f.today.month as int,
            f.today.day as int,
        ),
    ensures
        spec_check(f, s) == Outcome::FailFuture,
{
}

/// Widening the day window moves verdicts only toward `FailDays`: the
/// verdict either stays what it was, or was `FailMonths`, `FailYears` or
/// `Pass` and becomes `FailDays`. It never moves the other way.
pub proof fn lemma_day_window_monotone(f1: DateFilter, f2: DateFilter, s: Seq<char>)
    requires
        f1.today == f2.today,
        f1.months == f2.months,
        f1.years == f2.years,
        f1.days <= f2.days,
    ensures
        spec_check(f2, s) == spec_check(f1, s) || ((spec_check(f1, s) == Outcome::FailMonths
            || spec_check(f1, s) == Outcome::FailYears || spec_check(f1, s) == Outcome::Pass)
            && spec_check(f2, s) == Outcome::FailDays),
{
}

/// Only a date on the first day of its month can be classified
/// `FailMonths`; any other day of the month skips the month rule.
pub proof fn lemma_month_window_only_first_day(f: DateFilter, s: Seq<char>)
    ensures
        spec_check(f, s) == Outcome::FailMonths ==> (first_match(s) matches Some(i)
            && token_day(s, i) == 1),
{
}

/// Only a January-1st date can be classified `FailYears`.
pub proof fn lemma_year_window_only_new_years_day(f: DateFilter, s: Seq<char>)
    ensures
        spec_check(f, s) == Outcome::FailYears ==> (first_match(s) matches Some(i)
            && token_day(s, i) == 1 && token_month(s, i) == 1),
{
}

} // verus!
