//! A whole pass over the input files: from what the probe reported for each
//! of them to the output.

use crate::format::{formatted, single_line, Config};
use crate::probe::{entry_views, Entry, EntryView};
use crate::span::span_limit;
use crate::table::{composed, Output, OutputView, RowView};
use crate::tally::{contribution, measured, row_of, Failure, FailureView, Tally};
use vstd::prelude::*;

verus! {

/// The sum, in nanoseconds, of what the entries add to the total.
pub open spec fn total_of(entries: Seq<EntryView>, time_base: nat) -> nat
    decreases entries.len(),
{
    if entries.len() == 0 {
        0
    } else {
        total_of(entries.drop_last(), time_base) + contribution(entries.last(), time_base)
    }
}

/// The test that keeps the measured entries.
pub open spec fn is_measured() -> spec_fn(EntryView) -> bool {
    |entry: EntryView| measured(entry)
}

/// The map from a measured entry to its row.
pub open spec fn to_row(time_base: nat, seconds_only: bool) -> spec_fn(EntryView) -> RowView {
    |entry: EntryView| row_of(entry, time_base, seconds_only)
}

/// The rows of the entries: one for each measured entry, in the order of the
/// entries.
pub open spec fn rows_of(entries: Seq<EntryView>, time_base: nat, seconds_only: bool) -> Seq<
    RowView,
> {
    entries.filter(is_measured()).map_values(to_row(time_base, seconds_only))
}

/// The number of entries before the first one that the probe could not read;
/// the number of all entries where there is none.
pub open spec fn first_failure(entries: Seq<EntryView>) -> nat
    decreases entries.len(),
{
    if entries.len() == 0 || entries.first().outcome is Err {
        0
    } else {
        1 + first_failure(entries.drop_first())
    }
}

/// How a pass over the entries ends. The files are taken in order up to the
/// first that the probe could not read. If their durations add up to more than
/// can be held, the pass fails on that. Otherwise, if a file could not be
/// read, the pass fails with its path and the probe's message. Otherwise the
/// output shows the rows of all entries and their total.
pub open spec fn outcome_of(entries: Seq<EntryView>, time_base: nat, config: Config) -> Result<
    OutputView,
    FailureView,
> {
    let opened = entries.take(first_failure(entries) as int);
    if total_of(opened, time_base) > span_limit() {
        Err(FailureView::Overflow)
    } else if opened.len() < entries.len() {
        let failed = entries[opened.len() as int];
        Err(FailureView::Probe { path: failed.path, message: failed.outcome->Err_0 })
    } else {
        Ok(
            composed(
                rows_of(entries, time_base, config.seconds),
                formatted(config.seconds, total_of(entries, time_base)),
                config.quiet,
            ),
        )
    }
}

/// Runs a whole pass: takes the entries in order, stops at the first that the
/// probe could not read, and lays out the output where there is none.
pub fn aggregate(entries: &Vec<Entry>, time_base: u64, config: &Config) -> (result: Result<
    Output,
    Failure,
>)
    requires
        time_base > 0,
    ensures
        match result {
            Ok(output) => outcome_of(entry_views(entries@), time_base as nat, *config) == Ok::<
                OutputView,
                FailureView,
            >(output@),
            Err(failure) => outcome_of(entry_views(entries@), time_base as nat, *config) == Err::<
                OutputView,
                FailureView,
            >(failure@),
        },
        result matches Ok(Output::Summary(line)) ==> single_line(line@),
{
    let ghost all = entry_views(entries@);
    let mut tally = Tally::new();
    let mut i: usize = 0;
    proof {
        lemma_rows_of_empty(time_base as nat, config.seconds);
    }
    while i < entries.len()
        invariant
            i <= entries.len(),
            time_base > 0,
            all == entry_views(entries@),
            forall|j: int| 0 <= j < i ==> (#[trigger] all[j]).outcome is Ok,
            tally@.total == total_of(all.take(i as int), time_base as nat),
            tally@.total <= span_limit(),
            tally@.rows == rows_of(all.take(i as int), time_base as nat, config.seconds),
        decreases entries.len() - i,
    {
        let entry = &entries[i];
        proof {
            lemma_take_next(all, i as int, time_base as nat, config.seconds);
        }
        match tally.record(entry, time_base, config) {
            Err(failure) => {
                proof {
                    if all[i as int].outcome is Err {
                        lemma_first_failure_at(all, i as int);
                    } else {
                        lemma_first_failure_beyond(all, i + 1);
                        lemma_total_of_prefixes(
                            all,
                            i + 1,
                            first_failure(all) as int,
                            time_base as nat,
                        );
                    }
                }
                return Err(failure);
            },
            Ok(()) => {},
        }
        i = i + 1;
    }
    proof {
        lemma_first_failure_at(all, all.len() as int);
        assert(all.take(all.len() as int) =~= all);
    }
    Ok(tally.finish(config))
}

/// No entries leave no rows.
pub proof fn lemma_rows_of_empty(time_base: nat, seconds_only: bool)
    ensures
        rows_of(Seq::empty(), time_base, seconds_only) =~= Seq::empty(),
{
    reveal(Seq::filter);
}

/// One more entry adds its contribution to the total, and its row to the rows
/// where it is measured.
pub proof fn lemma_push_entry(
    entries: Seq<EntryView>,
    entry: EntryView,
    time_base: nat,
    seconds_only: bool,
)
    ensures
        total_of(entries.push(entry), time_base) == total_of(entries, time_base) + contribution(
            entry,
            time_base,
        ),
        rows_of(entries.push(entry), time_base, seconds_only) == if measured(entry) {
            rows_of(entries, time_base, seconds_only).push(row_of(entry, time_base, seconds_only))
        } else {
            rows_of(entries, time_base, seconds_only)
        },
{
    assert(entries.push(entry).drop_last() =~= entries);
    entries.lemma_filter_push(entry, is_measured());
    let kept = entries.filter(is_measured());
    if measured(entry) {
        assert(kept.push(entry).map_values(to_row(time_base, seconds_only)) =~= kept.map_values(
            to_row(time_base, seconds_only),
        ).push(row_of(entry, time_base, seconds_only)));
    }
}

/// The entries before position `next + 1` are those before `next` and the one
/// at `next`.
proof fn lemma_take_next(entries: Seq<EntryView>, next: int, time_base: nat, seconds_only: bool)
    requires
        0 <= next < entries.len(),
    ensures
        total_of(entries.take(next + 1), time_base) == total_of(entries.take(next), time_base)
            + contribution(entries[next], time_base),
        rows_of(entries.take(next + 1), time_base, seconds_only) == if measured(entries[next]) {
            rows_of(entries.take(next), time_base, seconds_only).push(
                row_of(entries[next], time_base, seconds_only),
            )
        } else {
            rows_of(entries.take(next), time_base, seconds_only)
        },
{
    assert(entries.take(next + 1) =~= entries.take(next).push(entries[next]));
    lemma_push_entry(entries.take(next), entries[next], time_base, seconds_only);
}

/// The first failure is where the first unreadable file stands.
pub proof fn lemma_first_failure_at(entries: Seq<EntryView>, at: int)
    requires
        0 <= at <= entries.len(),
        forall|j: int| 0 <= j < at ==> (#[trigger] entries[j]).outcome is Ok,
        at < entries.len() ==> entries[at].outcome is Err,
    ensures
        first_failure(entries) == at,
    decreases at,
{
    if at > 0 {
        lemma_first_failure_at(entries.drop_first(), at - 1);
    }
}

/// The first failure lies within the entries, and behind every run of
/// readable files that the entries begin with.
pub proof fn lemma_first_failure_beyond(entries: Seq<EntryView>, readable: int)
    requires
        0 <= readable <= entries.len(),
        forall|j: int| 0 <= j < readable ==> (#[trigger] entries[j]).outcome is Ok,
    ensures
        readable <= first_failure(entries) <= entries.len(),
    decreases entries.len(),
{
    if entries.len() > 0 && entries.first().outcome is Ok {
        let fewer = if readable > 0 {
            readable - 1
        } else {
            0
        };
        lemma_first_failure_beyond(entries.drop_first(), fewer);
    }
}

/// The total never shrinks as more entries are taken in.
pub proof fn lemma_total_of_prefixes(
    entries: Seq<EntryView>,
    shorter: int,
    longer: int,
    time_base: nat,
)
    requires
        0 <= shorter <= longer <= entries.len(),
    ensures
        total_of(entries.take(shorter), time_base) <= total_of(entries.take(longer), time_base),
    decreases longer - shorter,
{
    if shorter < longer {
        lemma_total_of_prefixes(entries, shorter, longer - 1, time_base);
        assert(entries.take(longer).drop_last() =~= entries.take(longer - 1));
    }
}

} // verus!
