//! Classifies dated filenames against a grandfather-father-son retention
//! policy: keep everything recent, keep first-of-month snapshots for a
//! month-granularity window, keep January-1st snapshots for a
//! year-granularity window, and mark the rest as eligible for deletion.

pub mod args;
pub mod date;
pub mod filter;
pub mod pattern;
