use datefilter::args::Args;
use datefilter::date::{add_months, Date};
use datefilter::filter::{DateFilter, Outcome};

fn reference_filter() -> DateFilter {
    let today = Date::from_ymd(2001, 2, 3).unwrap();
    DateFilter::new(today, 31, 12, 3)
}

#[test]
fn test_dates() {
    let today = Date::from_ymd(2001, 2, 3).unwrap();
    let filter = DateFilter::new(today, 31, 12, 3);

    assert_eq!(filter.check("foo_12001-02-9.txt"), Outcome::FailRegex);
    assert_eq!(filter.check("foo_2001-02-99.txt"), Outcome::FailParse);
    assert_eq!(filter.check("foo_2001-02-04.txt"), Outcome::FailFuture);

    assert_eq!(filter.check("foo_2001-02-03.txt"), Outcome::FailDays);
    assert_eq!(filter.check("foo_2001-02-02.txt"), Outcome::FailDays);
    assert_eq!(filter.check("foo_2001-01-04.txt"), Outcome::FailDays);
    assert_eq!(filter.check("foo_2001-01-03.txt"), Outcome::Pass);

    assert_eq!(filter.check("foo_2001-01-01.txt"), Outcome::FailMonths);
    assert_eq!(filter.check("foo_2000-12-01.txt"), Outcome::FailMonths);
    assert_eq!(filter.check("foo_2000-11-01.txt"), Outcome::FailMonths);
    assert_eq!(filter.check("foo_2000-10-01.txt"), Outcome::FailMonths);
    assert_eq!(filter.check("foo_2000-09-01.txt"), Outcome::FailMonths);
    assert_eq!(filter.check("foo_2000-08-01.txt"), Outcome::FailMonths);
    assert_eq!(filter.check("foo_2000-07-01.txt"), Outcome::FailMonths);
    assert_eq!(filter.check("foo_2000-06-01.txt"), Outcome::FailMonths);
    assert_eq!(filter.check("foo_2000-05-01.txt"), Outcome::FailMonths);
    assert_eq!(filter.check("foo_2000-04-01.txt"), Outcome::FailMonths);
    assert_eq!(filter.check("foo_2000-03-01.txt"), Outcome::FailMonths);
    assert_eq!(filter.check("foo_2000-02-01.txt"), Outcome::Pass);

    assert_eq!(filter.check("foo_2000-01-01.txt"), Outcome::FailYears);
    assert_eq!(filter.check("foo_1999-01-01.txt"), Outcome::FailYears);
    assert_eq!(filter.check("foo_1998-01-01.txt"), Outcome::Pass);
}

#[test]
fn no_shaped_substring_is_fail_regex() {
    let filter = reference_filter();
    assert_eq!(filter.check(""), Outcome::FailRegex);
    assert_eq!(filter.check("nodatehere.txt"), Outcome::FailRegex);
    assert_eq!(filter.check("2001-2-3"), Outcome::FailRegex);
    assert_eq!(filter.check("01-02-2003"), Outcome::FailRegex);
    assert_eq!(filter.check("ab-cd-efgh 1234:56:78"), Outcome::FailRegex);
}

#[test]
fn shaped_but_invalid_is_fail_parse() {
    let filter = reference_filter();
    assert_eq!(filter.check("foo_2001-13-01.txt"), Outcome::FailParse);
    assert_eq!(filter.check("foo_2001-00-10.txt"), Outcome::FailParse);
    assert_eq!(filter.check("foo_2001-04-31.txt"), Outcome::FailParse);
    assert_eq!(filter.check("foo_0000-00-00.txt"), Outcome::FailParse);
    // Leap-day validity: 2000 was a leap year, 1900 and 2001 were not.
    assert_eq!(filter.check("foo_1900-02-29.txt"), Outcome::FailParse);
    assert_eq!(filter.check("foo_2001-02-29.txt"), Outcome::FailParse);
}

#[test]
fn only_the_leftmost_match_counts() {
    let filter = reference_filter();
    // The first shaped substring is invalid; the valid one after it is
    // never looked at.
    assert_eq!(
        filter.check("a_2001-02-99_then_2001-01-04.txt"),
        Outcome::FailParse
    );
    // The shaped substring starts inside a longer digit run.
    assert_eq!(filter.check("foo_12001-02-99.txt"), Outcome::FailParse);
}

#[test]
fn future_dates_always_fail_future() {
    let filter = reference_filter();
    assert_eq!(filter.check("foo_2001-02-04.txt"), Outcome::FailFuture);
    assert_eq!(filter.check("foo_2001-03-01.txt"), Outcome::FailFuture);
    assert_eq!(filter.check("foo_2002-01-01.txt"), Outcome::FailFuture);
    assert_eq!(filter.check("foo_9999-12-31.txt"), Outcome::FailFuture);
}

#[test]
fn classification_is_idempotent() {
    let filter = reference_filter();
    let tokens = [
        "foo_12001-02-9.txt",
        "foo_2001-02-99.txt",
        "foo_2001-02-04.txt",
        "foo_2001-02-02.txt",
        "foo_2000-12-01.txt",
        "foo_2000-01-01.txt",
        "foo_1998-01-01.txt",
    ];
    for token in tokens {
        assert_eq!(filter.check(token), filter.check(token));
    }
}

#[test]
fn widening_the_day_window_only_moves_toward_fail_days() {
    let today = Date::from_ymd(2001, 2, 3).unwrap();
    let narrow = DateFilter::new(today, 31, 12, 3);
    let wide = DateFilter::new(today, 32, 12, 3);
    // Exactly at the boundary: one more day of window flips the verdict
    // from Pass to FailDays.
    assert_eq!(narrow.check("foo_2001-01-03.txt"), Outcome::Pass);
    assert_eq!(wide.check("foo_2001-01-03.txt"), Outcome::FailDays);
    // Verdicts that do not depend on the day window stay put.
    assert_eq!(wide.check("foo_2001-02-04.txt"), Outcome::FailFuture);
    assert_eq!(wide.check("foo_1998-01-01.txt"), Outcome::Pass);
}

#[test]
fn month_rule_needs_the_first_of_the_month() {
    let today = Date::from_ymd(2001, 2, 3).unwrap();
    // An enormous month window cannot retain a date that is not on the
    // first day of its month.
    let filter = DateFilter::new(today, 0, 100000, 0);
    assert_eq!(filter.check("foo_2000-12-02.txt"), Outcome::Pass);
    assert_eq!(filter.check("foo_2000-12-01.txt"), Outcome::FailMonths);
}

#[test]
fn year_rule_needs_new_years_day() {
    let today = Date::from_ymd(2001, 2, 3).unwrap();
    // An enormous year window cannot retain a date that is not January 1st.
    let filter = DateFilter::new(today, 0, 0, 100000);
    assert_eq!(filter.check("foo_2000-03-01.txt"), Outcome::Pass);
    assert_eq!(filter.check("foo_2000-01-02.txt"), Outcome::Pass);
    assert_eq!(filter.check("foo_2000-01-01.txt"), Outcome::FailYears);
}

#[test]
fn zero_windows_pass_everything_not_future() {
    let today = Date::from_ymd(2001, 2, 3).unwrap();
    let filter = DateFilter::new(today, 0, 0, 0);
    assert_eq!(filter.check("foo_2001-02-03.txt"), Outcome::Pass);
    assert_eq!(filter.check("foo_2001-01-01.txt"), Outcome::Pass);
    assert_eq!(filter.check("foo_2001-02-04.txt"), Outcome::FailFuture);
}

#[test]
fn day_window_counts_real_calendar_days_across_leap_day() {
    // 2000-02-29 to 2001-02-03 is 340 calendar days (2000 was a leap year).
    let today = Date::from_ymd(2001, 2, 3).unwrap();
    let at_boundary = DateFilter::new(today, 340, 0, 0);
    let past_boundary = DateFilter::new(today, 341, 0, 0);
    assert_eq!(at_boundary.check("foo_2000-02-29.txt"), Outcome::Pass);
    assert_eq!(past_boundary.check("foo_2000-02-29.txt"), Outcome::FailDays);
}

#[test]
fn huge_windows_do_not_break_the_classifier() {
    let today = Date::from_ymd(2001, 2, 3).unwrap();
    let filter = DateFilter::new(today, u32::MAX, u32::MAX, u32::MAX);
    assert_eq!(filter.check("foo_0000-01-01.txt"), Outcome::FailDays);
    assert_eq!(filter.check("foo_2001-02-04.txt"), Outcome::FailFuture);
    assert_eq!(filter.check("foo_2001-02-99.txt"), Outcome::FailParse);
}

#[test]
fn add_months_handles_rollover_and_clamping() {
    // Rollover into the next year.
    assert_eq!(add_months(2000, 12, 1, 1), (2001, 1, 1));
    // Advancing twelve months lands on the same day one year later.
    assert_eq!(add_months(2000, 1, 1, 12), (2001, 1, 1));
    // The day of month is clamped to the length of the target month.
    assert_eq!(add_months(2001, 1, 31, 1), (2001, 2, 28));
    assert_eq!(add_months(2000, 1, 31, 1), (2000, 2, 29));
    assert_eq!(add_months(2000, 2, 29, 12), (2001, 2, 28));
    // Adding zero months changes nothing.
    assert_eq!(add_months(2001, 2, 3, 0), (2001, 2, 3));
}

#[test]
fn from_ymd_accepts_exactly_the_real_dates() {
    assert!(Date::from_ymd(2001, 2, 3).is_some());
    assert!(Date::from_ymd(2000, 2, 29).is_some());
    assert!(Date::from_ymd(0, 1, 1).is_some());
    assert!(Date::from_ymd(9999, 12, 31).is_some());
    assert!(Date::from_ymd(1900, 2, 29).is_none());
    assert!(Date::from_ymd(2001, 13, 1).is_none());
    assert!(Date::from_ymd(2001, 0, 1).is_none());
    assert!(Date::from_ymd(2001, 4, 31).is_none());
    assert!(Date::from_ymd(2001, 1, 0).is_none());
    assert!(Date::from_ymd(10000, 1, 1).is_none());
}

#[test]
fn default_horizons() {
    let args = Args::default();
    assert_eq!(args.days, 28);
    assert_eq!(args.months, 12);
    assert_eq!(args.years, 100);
}
