//! Retention horizons as plain, validated integers. The command-line
//! front end parses its options into its own copy and converts.

use vstd::prelude::*;

verus! {

/// The three retention horizons: days, months and years.
#[derive(Clone, Copy, PartialEq, Eq, Structural, Debug)]
pub struct Args {
    pub days: u32,
    pub months: u32,
    pub years: u32,
}

impl Default for Args {
    /// The stock policy: a four-week day window, a one-year month window
    /// and a century-long year window.
    fn default() -> (r: Args)
        ensures
            r.days == 28,
            r.months == 12,
            r.years == 100,
    {
        Args { days: 28, months: 12, years: 100 }
    }
}

} // verus!
