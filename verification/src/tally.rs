//! The running total of a pass over the input files, and the rows it leaves.

use crate::format::{format_duration, formatted, single_line, Config};
use crate::probe::{DurationInfo, Entry, EntryView};
use crate::span::{lemma_span_bounded, span_limit, ticks_to_nanos, Span};
use crate::table::{compose, composed, row_views, Output, Row, RowView};
use vstd::prelude::*;

verus! {

/// Why a pass over the input files was given up.
#[derive(Debug, PartialEq, Eq)]
pub enum Failure {
    /// The probe could not open or read the file at `path`.
    Probe { path: String, message: String },
    /// The durations no longer add up to an interval that can be held.
    Overflow,
}

/// A [`Failure`] with its texts as sequences of characters.
pub enum FailureView {
    Probe { path: Seq<char>, message: Seq<char> },
    Overflow,
}

impl View for Failure {
    type V = FailureView;

    open spec fn view(&self) -> FailureView {
        match self {
            Failure::Probe { path, message } => FailureView::Probe {
                path: path@,
                message: message@,
            },
            Failure::Overflow => FailureView::Overflow,
        }
    }
}

/// The words in which a failure is reported: the path of the unreadable file
/// and the probe's message, or a note that the total grew too long.
pub open spec fn failure_text(failure: FailureView) -> Seq<char> {
    match failure {
        FailureView::Probe { path, message } => path + ": "@ + message,
        FailureView::Overflow => "overflow when adding durations"@,
    }
}

impl Failure {
    /// Writes the failure out for the user.
    pub fn message(&self) -> (text: String)
        ensures
            text@ == failure_text(self@),
    {
        match self {
            Failure::Probe { path, message } => {
                let mut text = path.clone();
                text.append(": ");
                text.append(message.as_str());
                text
            },
            Failure::Overflow => String::from_str("overflow when adding durations"),
        }
    }
}

/// The length in nanoseconds that an entry adds to the total: the converted
/// duration of a container that reports one, nothing otherwise.
pub open spec fn contribution(entry: EntryView, time_base: nat) -> nat {
    match entry.outcome {
        Ok(DurationInfo::Ticks(ticks)) => ticks_to_nanos(ticks as nat, time_base),
        _ => 0,
    }
}

/// Whether an entry is displayed: its container was opened and reports a
/// duration.
pub open spec fn measured(entry: EntryView) -> bool {
    entry.outcome matches Ok(DurationInfo::Ticks(_))
}

/// The row of a measured entry: its path and its converted duration as text.
pub open spec fn row_of(entry: EntryView, time_base: nat, seconds_only: bool) -> RowView {
    RowView {
        label: entry.path,
        duration: formatted(seconds_only, contribution(entry, time_base)),
    }
}

/// The state of a pass: the sum of the durations seen so far and one row for
/// each of them, in the order in which they were seen.
pub struct Tally {
    total: Span,
    rows: Vec<Row>,
}

/// A [`Tally`] as a number of nanoseconds and a sequence of rows.
pub struct TallyView {
    pub total: nat,
    pub rows: Seq<RowView>,
}

impl View for Tally {
    type V = TallyView;

    closed spec fn view(&self) -> TallyView {
        TallyView { total: self.total@, rows: row_views(self.rows@) }
    }
}

/// What one entry makes of a tally. A file that the probe could not read ends
/// the pass. A container without a known duration leaves the tally as it is.
/// A known duration is converted and added to the total, and leaves a row
/// behind, unless the new total could not be held.
pub open spec fn step(
    tally: TallyView,
    entry: EntryView,
    time_base: nat,
    seconds_only: bool,
) -> Result<TallyView, FailureView> {
    match entry.outcome {
        Err(message) => Err(FailureView::Probe { path: entry.path, message }),
        Ok(DurationInfo::Unknown) => Ok(tally),
        Ok(DurationInfo::Ticks(_)) => {
            let total = tally.total + contribution(entry, time_base);
            if total > span_limit() {
                Err(FailureView::Overflow)
            } else {
                Ok(
                    TallyView {
                        total,
                        rows: tally.rows.push(row_of(entry, time_base, seconds_only)),
                    },
                )
            }
        },
    }
}

impl Tally {
    /// The tally before any file: a total of zero and no rows.
    pub fn new() -> (tally: Tally)
        ensures
            tally@ == (TallyView { total: 0, rows: Seq::empty() }),
    {
        let tally = Tally { total: Span::zero(), rows: Vec::new() };
        assert(row_views(tally.rows@) =~= Seq::empty());
        tally
    }

    /// The sum of the durations seen so far.
    pub fn total(&self) -> (total: Span)
        ensures
            total.wf(),
            total@ == self@.total,
    {
        proof {
            use_type_invariant(&self.total);
        }
        self.total
    }

    /// The rows of the files measured so far, in input order.
    pub fn rows(&self) -> (rows: &Vec<Row>)
        ensures
            row_views(rows@) == self@.rows,
    {
        &self.rows
    }

    /// Adds a measured duration and its row, the duration already written as
    /// `text`. Where the new total could not be held, nothing changes and the
    /// result is `false`.
    pub fn add(&mut self, label: String, span: Span, text: String) -> (added: bool)
        ensures
            added == (old(self)@.total + span@ <= span_limit()),
            added ==> final(self)@ == (TallyView {
                total: old(self)@.total + span@,
                rows: old(self)@.rows.push(RowView { label: label@, duration: text@ }),
            }),
            !added ==> final(self)@ == old(self)@,
            old(self)@.total <= final(self)@.total <= span_limit(),
    {
        proof {
            use_type_invariant(&self.total);
            lemma_span_bounded(self.total);
        }
        match self.total.checked_add(span) {
            None => false,
            Some(total) => {
                proof {
                    lemma_span_bounded(total);
                }
                let ghost before = self.rows@;
                let row = Row { label, duration: text };
                self.total = total;
                self.rows.push(row);
                assert(row_views(self.rows@) =~= row_views(before).push(row@));
                true
            },
        }
    }

    /// Takes in what the probe reported for the next file.
    pub fn record(&mut self, entry: &Entry, time_base: u64, config: &Config) -> (result: Result<
        (),
        Failure,
    >)
        requires
            time_base > 0,
        ensures
            match step(old(self)@, entry@, time_base as nat, config.seconds) {
                Ok(next) => result is Ok && final(self)@ == next,
                Err(failure) => {
                    &&& result matches Err(reported) && reported@ == failure
                    &&& final(self)@ == old(self)@
                },
            },
            old(self)@.total <= final(self)@.total <= span_limit(),
            old(self)@.rows.is_prefix_of(final(self)@.rows),
    {
        proof {
            use_type_invariant(&self.total);
            lemma_span_bounded(self.total);
        }
        match &entry.outcome {
            Err(error) => Err(
                Failure::Probe { path: entry.path.clone(), message: error.message.clone() },
            ),
            Ok(DurationInfo::Unknown) => Ok(()),
            Ok(DurationInfo::Ticks(ticks)) => {
                let span = Span::from_ticks(*ticks, time_base);
                let text = format_duration(config, span);
                if self.add(entry.path.clone(), span, text) {
                    Ok(())
                } else {
                    Err(Failure::Overflow)
                }
            },
        }
    }

    /// Closes the pass: writes the total and lays out the output that the
    /// configuration asks for.
    pub fn finish(&self, config: &Config) -> (output: Output)
        ensures
            output@ == composed(
                self@.rows,
                formatted(config.seconds, self@.total),
                config.quiet,
            ),
            output matches Output::Summary(line) ==> single_line(line@),
    {
        let total = format_duration(config, self.total);
        compose(&self.rows, total, config.quiet)
    }
}

} // verus!
