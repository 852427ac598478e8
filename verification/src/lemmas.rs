//! What holds of every pass, whatever the entries are.

use crate::aggregate::{
    first_failure, lemma_first_failure_at, lemma_first_failure_beyond, lemma_push_entry,
    lemma_rows_of_empty, lemma_total_of_prefixes, outcome_of, rows_of, total_of,
};
use crate::format::{formatted, Config};
use crate::probe::{DurationInfo, EntryView};
use crate::span::span_limit;
use crate::table::{composed, lemma_composed_total, shown_total, OutputView};
use crate::tally::{contribution, measured, row_of, step, FailureView, TallyView};
use vstd::prelude::*;
use vstd::seq_lib::{group_to_multiset_ensures, to_multiset_contains, to_multiset_len};

verus! {

/// Whether the probe could read every file.
pub open spec fn all_readable(entries: Seq<EntryView>) -> bool {
    forall|j: int| 0 <= j < entries.len() ==> (#[trigger] entries[j]).outcome is Ok
}

/// The first failure is what its name says: the files before it were read,
/// and the file at its place, if there is one, was not.
pub proof fn lemma_first_failure(entries: Seq<EntryView>)
    ensures
        first_failure(entries) <= entries.len(),
        forall|j: int| 0 <= j < first_failure(entries) ==> (#[trigger] entries[j]).outcome is Ok,
        first_failure(entries) < entries.len() ==> entries[first_failure(entries) as int].outcome
            is Err,
    decreases entries.len(),
{
    if entries.len() > 0 && entries.first().outcome is Ok {
        let rest = entries.drop_first();
        lemma_first_failure(rest);
        assert forall|j: int| 0 <= j < first_failure(entries) implies (#[trigger] entries[j]).outcome
            is Ok by {
            if j > 0 {
                assert(entries[j] == rest[j - 1]);
            }
        }
    }
}

/// A pass succeeds exactly where every file was read and the durations add
/// up to an interval that can be held; it then shows the rows and the total of
/// all entries.
pub proof fn lemma_outcome_ok(entries: Seq<EntryView>, time_base: nat, config: Config)
    ensures
        outcome_of(entries, time_base, config) is Ok <==> all_readable(entries) && total_of(
            entries,
            time_base,
        ) <= span_limit(),
        outcome_of(entries, time_base, config) is Ok ==> outcome_of(entries, time_base, config)
            == Ok::<OutputView, FailureView>(
            composed(
                rows_of(entries, time_base, config.seconds),
                formatted(config.seconds, total_of(entries, time_base)),
                config.quiet,
            ),
        ),
{
    lemma_first_failure(entries);
    if all_readable(entries) {
        lemma_first_failure_at(entries, entries.len() as int);
        assert(entries.take(entries.len() as int) =~= entries);
    }
}

/// The tally that is left when the entries are taken in one by one, starting
/// from the empty tally, or the failure at which this stops.
pub open spec fn pass(entries: Seq<EntryView>, time_base: nat, seconds_only: bool) -> Result<
    TallyView,
    FailureView,
>
    decreases entries.len(),
{
    if entries.len() == 0 {
        Ok(TallyView { total: 0, rows: Seq::empty() })
    } else {
        match pass(entries.drop_last(), time_base, seconds_only) {
            Ok(tally) => step(tally, entries.last(), time_base, seconds_only),
            Err(failure) => Err(failure),
        }
    }
}

/// Taking the entries in one by one comes to what a whole pass comes to: it
/// stops with the failure of the pass, or it leaves the total and the rows of
/// all entries.
pub proof fn lemma_pass(entries: Seq<EntryView>, time_base: nat, seconds_only: bool)
    ensures
        ({
            let opened = entries.take(first_failure(entries) as int);
            if total_of(opened, time_base) > span_limit() {
                pass(entries, time_base, seconds_only) == Err::<TallyView, FailureView>(
                    FailureView::Overflow,
                )
            } else if opened.len() < entries.len() {
                pass(entries, time_base, seconds_only) == Err::<TallyView, FailureView>(
                    FailureView::Probe {
                        path: entries[opened.len() as int].path,
                        message: entries[opened.len() as int].outcome->Err_0,
                    },
                )
            } else {
                pass(entries, time_base, seconds_only) == Ok::<TallyView, FailureView>(
                    TallyView {
                        total: total_of(entries, time_base),
                        rows: rows_of(entries, time_base, seconds_only),
                    },
                )
            }
        }),
    decreases entries.len(),
{
    if entries.len() == 0 {
        lemma_rows_of_empty(time_base, seconds_only);
        assert(entries =~= Seq::empty());
    } else {
        let front = entries.drop_last();
        let last = entries.last();
        let stop = first_failure(front) as int;
        lemma_pass(front, time_base, seconds_only);
        lemma_first_failure(front);
        assert(entries =~= front.push(last));
        if stop < front.len() {
            lemma_first_failure_at(entries, stop);
            assert(entries.take(stop) =~= front.take(stop));
        } else {
            assert(front.take(stop) =~= front);
            lemma_push_entry(front, last, time_base, seconds_only);
            if total_of(front, time_base) > span_limit() {
                lemma_first_failure_beyond(entries, stop);
                lemma_total_of_prefixes(entries, stop, first_failure(entries) as int, time_base);
            } else if last.outcome is Err {
                lemma_first_failure_at(entries, stop);
            } else {
                lemma_first_failure_at(entries, stop + 1);
                assert(entries.take(stop + 1) =~= entries);
            }
        }
    }
}

/// The outcome of a whole pass is the output composed from what taking the
/// entries in one by one leaves, or the failure at which that stops.
pub proof fn lemma_pass_outcome(entries: Seq<EntryView>, time_base: nat, config: Config)
    ensures
        outcome_of(entries, time_base, config) == match pass(
            entries,
            time_base,
            config.seconds,
        ) {
            Ok(tally) => Ok::<OutputView, FailureView>(
                composed(tally.rows, formatted(config.seconds, tally.total), config.quiet),
            ),
            Err(failure) => Err::<OutputView, FailureView>(failure),
        },
{
    lemma_pass(entries, time_base, config.seconds);
}

/// Taking one entry out lowers the total by what that entry adds.
pub proof fn lemma_total_without(entries: Seq<EntryView>, at: int, time_base: nat)
    requires
        0 <= at < entries.len(),
    ensures
        total_of(entries, time_base) == total_of(entries.remove(at), time_base) + contribution(
            entries[at],
            time_base,
        ),
    decreases entries.len(),
{
    if at < entries.len() - 1 {
        assert(entries.remove(at).drop_last() =~= entries.drop_last().remove(at));
        lemma_total_without(entries.drop_last(), at, time_base);
    }
}

/// Taking out an entry that is not measured leaves the rows as they are;
/// taking out a measured one takes its row out of them.
pub proof fn lemma_rows_without(
    entries: Seq<EntryView>,
    at: int,
    time_base: nat,
    seconds_only: bool,
)
    requires
        0 <= at < entries.len(),
    ensures
        !measured(entries[at]) ==> rows_of(entries.remove(at), time_base, seconds_only) == rows_of(
            entries,
            time_base,
            seconds_only,
        ),
        measured(entries[at]) ==> rows_of(entries, time_base, seconds_only).to_multiset()
            == rows_of(entries.remove(at), time_base, seconds_only).to_multiset().insert(
            row_of(entries[at], time_base, seconds_only),
        ),
    decreases entries.len(),
{
    broadcast use group_to_multiset_ensures;

    let front = entries.drop_last();
    let last = entries.last();
    assert(entries =~= front.push(last));
    lemma_push_entry(front, last, time_base, seconds_only);
    if at < entries.len() - 1 {
        assert(entries.remove(at) =~= front.remove(at).push(last));
        lemma_push_entry(front.remove(at), last, time_base, seconds_only);
        lemma_rows_without(front, at, time_base, seconds_only);
    }
}

/// Summing does not depend on the order of the files: two lists that hold the
/// same entries, each as often as the other, have the same total, written the
/// same way, and the same rows, though not in the same order.
pub proof fn lemma_order_independent(
    a: Seq<EntryView>,
    b: Seq<EntryView>,
    time_base: nat,
    seconds_only: bool,
)
    requires
        a.to_multiset() == b.to_multiset(),
    ensures
        total_of(a, time_base) == total_of(b, time_base),
        formatted(seconds_only, total_of(a, time_base)) == formatted(
            seconds_only,
            total_of(b, time_base),
        ),
        rows_of(a, time_base, seconds_only).to_multiset() == rows_of(
            b,
            time_base,
            seconds_only,
        ).to_multiset(),
    decreases a.len(),
{
    broadcast use group_to_multiset_ensures;

    to_multiset_len(a);
    to_multiset_len(b);
    if a.len() > 0 {
        let end = a.len() - 1;
        let moved = a[end];
        to_multiset_contains(a, moved);
        to_multiset_contains(b, moved);
        let at = choose|i: int| 0 <= i < b.len() && b[i] == moved;
        lemma_order_independent(a.remove(end), b.remove(at), time_base, seconds_only);
        lemma_total_without(a, end, time_base);
        lemma_total_without(b, at, time_base);
        lemma_rows_without(a, end, time_base, seconds_only);
        lemma_rows_without(b, at, time_base, seconds_only);
    }
}

/// The order of the files does not decide whether a pass succeeds, nor the
/// total that a successful pass shows; where only the total is shown, it does
/// not change the output at all.
pub proof fn lemma_outcome_order_independent(
    a: Seq<EntryView>,
    b: Seq<EntryView>,
    time_base: nat,
    config: Config,
)
    requires
        a.to_multiset() == b.to_multiset(),
    ensures
        outcome_of(a, time_base, config) is Ok <==> outcome_of(b, time_base, config) is Ok,
        outcome_of(a, time_base, config) is Ok ==> shown_total(
            outcome_of(a, time_base, config)->Ok_0,
        ) == shown_total(outcome_of(b, time_base, config)->Ok_0),
        outcome_of(a, time_base, config) is Ok && config.quiet ==> outcome_of(a, time_base, config)
            == outcome_of(b, time_base, config),
{
    broadcast use group_to_multiset_ensures;

    lemma_order_independent(a, b, time_base, config.seconds);
    lemma_outcome_ok(a, time_base, config);
    lemma_outcome_ok(b, time_base, config);
    if all_readable(a) {
        assert forall|j: int| 0 <= j < b.len() implies (#[trigger] b[j]).outcome is Ok by {
            to_multiset_contains(a, b[j]);
            to_multiset_contains(b, b[j]);
        }
    }
    if all_readable(b) {
        assert forall|j: int| 0 <= j < a.len() implies (#[trigger] a[j]).outcome is Ok by {
            to_multiset_contains(a, a[j]);
            to_multiset_contains(b, a[j]);
        }
    }
    lemma_composed_total(
        rows_of(a, time_base, config.seconds),
        formatted(config.seconds, total_of(a, time_base)),
        config.quiet,
    );
    lemma_composed_total(
        rows_of(b, time_base, config.seconds),
        formatted(config.seconds, total_of(b, time_base)),
        config.quiet,
    );
}

/// A file whose container reports no duration adds no row and no time: with
/// or without it, the rows, the total and the outcome of the pass are the same.
pub proof fn lemma_unknown_adds_nothing(
    entries: Seq<EntryView>,
    at: int,
    time_base: nat,
    config: Config,
)
    requires
        0 <= at < entries.len(),
        entries[at].outcome == Ok::<DurationInfo, Seq<char>>(DurationInfo::Unknown),
    ensures
        total_of(entries.remove(at), time_base) == total_of(entries, time_base),
        rows_of(entries.remove(at), time_base, config.seconds) == rows_of(
            entries,
            time_base,
            config.seconds,
        ),
        outcome_of(entries.remove(at), time_base, config) == outcome_of(
            entries,
            time_base,
            config,
        ),
{
    let fewer = entries.remove(at);
    let stop = first_failure(entries) as int;
    lemma_total_without(entries, at, time_base);
    lemma_rows_without(entries, at, time_base, config.seconds);
    lemma_first_failure(entries);
    if at < stop {
        lemma_first_failure_at(fewer, stop - 1);
        assert(fewer.take(stop - 1) =~= entries.take(stop).remove(at));
        lemma_total_without(entries.take(stop), at, time_base);
    } else {
        lemma_first_failure_at(fewer, stop);
        assert(fewer.take(stop) =~= entries.take(stop));
    }
}

/// A pass over files of which none reports a duration shows no rows and a
/// total of zero, which in whole seconds is written `0`.
pub proof fn lemma_only_unknown(entries: Seq<EntryView>, time_base: nat, config: Config)
    requires
        forall|j: int|
            0 <= j < entries.len() ==> (#[trigger] entries[j]).outcome == Ok::<
                DurationInfo,
                Seq<char>,
            >(DurationInfo::Unknown),
    ensures
        total_of(entries, time_base) == 0,
        rows_of(entries, time_base, config.seconds) == Seq::<crate::table::RowView>::empty(),
        outcome_of(entries, time_base, config) == Ok::<OutputView, FailureView>(
            composed(Seq::empty(), formatted(config.seconds, 0), config.quiet),
        ),
        shown_total(outcome_of(entries, time_base, config)->Ok_0) == formatted(config.seconds, 0),
        formatted(true, 0) == seq!['0'],
    decreases entries.len(),
{
    lemma_rows_of_empty(time_base, config.seconds);
    if entries.len() > 0 {
        let front = entries.drop_last();
        lemma_only_unknown(front, time_base, config);
        assert(entries =~= front.push(entries.last()));
        lemma_push_entry(front, entries.last(), time_base, config.seconds);
    }
    lemma_outcome_ok(entries, time_base, config);
    lemma_composed_total(Seq::empty(), formatted(config.seconds, 0), config.quiet);
}

/// Showing the total alone shows what the table shows in its last line: for
/// the same entries, the summary is the duration in the line of the total, and
/// a pass that fails one way fails the other way for the same reason.
pub proof fn lemma_summary_is_total_line(
    entries: Seq<EntryView>,
    time_base: nat,
    seconds_only: bool,
)
    ensures
        ({
            let brief = outcome_of(
                entries,
                time_base,
                Config { seconds: seconds_only, quiet: true },
            );
            let full = outcome_of(
                entries,
                time_base,
                Config { seconds: seconds_only, quiet: false },
            );
            match brief {
                Ok(summary) => {
                    &&& summary is Summary
                    &&& full matches Ok(table)
                    &&& table is Table
                    &&& table->Table_0.len() >= 2
                    &&& table->Table_0.last().duration.text == summary->Summary_0
                    &&& shown_total(table) == shown_total(summary)
                },
                Err(failure) => full == Err::<OutputView, FailureView>(failure),
            }
        }),
{
    let rows = rows_of(entries, time_base, seconds_only);
    let total = formatted(seconds_only, total_of(entries, time_base));
    lemma_composed_total(rows, total, true);
    lemma_composed_total(rows, total, false);
}

} // verus!
