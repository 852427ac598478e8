//! Tallying the playback durations of media files.
//!
//! A media probe reports, for each file, either a failure or the container's
//! duration in ticks of a fixed time base (possibly "unknown"). This crate turns
//! such reports into time intervals, sums them, and lays out the result either as
//! a table of rows with a total or as the total alone.

pub mod aggregate;
pub mod decimal;
pub mod format;
pub mod lemmas;
pub mod probe;
pub mod span;
pub mod table;
pub mod tally;
