//! Writing a time interval as text.

use crate::decimal::{decimal, decimal_string, lemma_decimal_digits};
use crate::span::{Span, NANOS_PER_SEC};
use vstd::prelude::*;

verus! {

/// How durations are written and how much of the result is shown.
#[derive(Clone, Copy, Debug, PartialEq, Eq, Structural)]
pub struct Config {
    /// Write durations as whole seconds instead of in units.
    pub seconds: bool,
    /// Show the total alone instead of the table.
    pub quiet: bool,
}

/// Whether `text` holds no line break.
pub open spec fn single_line(text: Seq<char>) -> bool {
    forall|i: int| 0 <= i < text.len() ==> text[i] != '\n'
}

/// The text that `humantime::format_duration` displays for an interval of
/// `secs` whole seconds and `nanos` nanoseconds.
pub uninterp spec fn humantime_text(secs: u64, nanos: u32) -> Seq<char>;

/// Calls `humantime::format_duration` on the interval of `secs` seconds and
/// `nanos` nanoseconds and collects what it displays. The crate writes the
/// non-zero units of the interval, from years down to nanoseconds, separated by
/// single spaces, or `0s` for the empty interval, so the text never holds a line
/// break. Which text it is exactly is left to the crate: the contract only gives
/// it a name.
#[verifier::external_body]
fn human_readable(secs: u64, nanos: u32) -> (text: String)
    requires
        nanos < NANOS_PER_SEC,
    ensures
        text@ == humantime_text(secs, nanos),
        single_line(text@),
{
    humantime::format_duration(std::time::Duration::new(secs, nanos)).to_string()
}

/// The text of an interval of `nanos` nanoseconds: its whole seconds in
/// decimal notation where `seconds_only` is set, its units as `humantime`
/// writes them otherwise.
pub open spec fn formatted(seconds_only: bool, nanos: nat) -> Seq<char> {
    let secs = nanos / (NANOS_PER_SEC as nat);
    if seconds_only {
        decimal(secs)
    } else {
        humantime_text(secs as u64, (nanos % (NANOS_PER_SEC as nat)) as u32)
    }
}

/// Writes `duration` as the configuration asks: as a plain count of whole
/// seconds, what is left of a second being dropped, or in units.
pub fn format_duration(config: &Config, duration: Span) -> (text: String)
    ensures
        text@ == formatted(config.seconds, duration@),
        single_line(text@),
{
    if config.seconds {
        let secs: u64 = duration.as_secs();
        proof {
            lemma_decimal_digits(secs as nat);
        }
        decimal_string(secs)
    } else {
        human_readable(duration.as_secs(), duration.subsec_nanos())
    }
}

} // verus!
