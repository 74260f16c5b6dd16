//! What holds of every pass, stated over the model and proved.

use vstd::prelude::*;
use crate::analyze::{
    aggregate, booked, closed_at, opening, owed, previous_start, run, settle, settled, step,
    Diagnostic, Pass, Pending, Tally,
};
use crate::clock::{naive_datetime_reading, naive_time_reading};
use crate::ledger::{credited, total_of, Accumulator};
use crate::model::{elapsed, Instant, RawRow, ResolvedRecord};
use crate::parse::{resolve_instant, resolve_record, TIMESTAMP_FORMAT, TIME_FORMAT};
use crate::submission::{counts, is_affirmative, is_negative};

verus! {

/// Crediting seconds raises the total of the day and project that are
/// credited by just those seconds, and leaves every other total as it was.
pub proof fn law_credit_adds(
    acc: Accumulator,
    day: int,
    project: Seq<char>,
    amount: nat,
    other_day: int,
    other_project: Seq<char>,
)
    ensures
        total_of(credited(acc, day, project, amount), day, project) == total_of(acc, day, project)
            + amount,
        (other_day != day || other_project != project) ==> total_of(
            credited(acc, day, project, amount),
            other_day,
            other_project,
        ) == total_of(acc, other_day, other_project),
{
}

/// A bare time of day is taken on the day of the record before: a text that
/// is no full date and time but a time of day resolves, after a record that
/// started at `previous`, to that time on the day of `previous`.
pub proof fn law_bare_time_takes_previous_day(text: Seq<char>, previous: Instant, secs: u32)
    requires
        naive_datetime_reading(text, TIMESTAMP_FORMAT@).is_none(),
        naive_time_reading(text, TIME_FORMAT@) == Some(secs),
    ensures
        resolve_instant(text, Some(previous)) == Some(Instant { day: previous.day, secs }),
{
}

/// The start of the next row closes an open record: after a first row
/// without an end and a second row that starts at `T`, the first row is
/// settled as the record from its own start to `T`, and where it counts and
/// `T` is not before its start, its project on its day has gained `T` less
/// its start.
pub proof fn law_next_start_closes(
    tally: Tally,
    first: RawRow,
    second: RawRow,
    ignore_submitted: bool,
)
    requires
        resolve_record(first, None) is Ok,
        resolve_record(first, None).unwrap().deferred,
        resolve_record(second, Some(resolve_record(first, None).unwrap().start)) is Ok,
    ensures
        ({
            let a = resolve_record(first, None).unwrap();
            let b = resolve_record(second, Some(a.start)).unwrap();
            let closed = settled(tally, closed_at(a, b.start), ignore_submitted);
            let after = run(opening(tally), seq![first, second], ignore_submitted);
            &&& after.tally == if b.deferred {
                closed
            } else {
                settled(closed, b, ignore_submitted)
            }
            &&& counts(a.submitted, ignore_submitted) && elapsed(a.start, b.start) >= 0
                ==> total_of(closed.totals, a.start.day as int, a.project) == total_of(
                tally.totals,
                a.start.day as int,
                a.project,
            ) + elapsed(a.start, b.start)
        }),
{
    let rows = seq![first, second];
    let start = opening(tally);
    assert(rows.drop_last() =~= seq![first]);
    assert(rows.drop_last().drop_last() =~= Seq::<RawRow>::empty());
    assert(run(start, rows.drop_last().drop_last(), ignore_submitted) == start);
    assert(rows.drop_last().last() == first);
    assert(rows.last() == second);
    let one = run(start, rows.drop_last(), ignore_submitted);
    assert(one == step(start, first, 0, ignore_submitted));
}

/// A record that ends before it starts adds nothing: the accumulator after
/// it is settled is the accumulator before.
pub proof fn law_negative_excluded(tally: Tally, record: ResolvedRecord, ignore_submitted: bool)
    requires
        record.end is Some,
        elapsed(record.start, record.end.unwrap()) < 0,
    ensures
        booked(tally, record).totals == tally.totals,
        settled(tally, record, ignore_submitted).totals == tally.totals,
{
}

/// A row that ends before it starts adds nothing of its own: where no
/// record is open, the accumulator after the row is the accumulator before.
pub proof fn law_negative_row_excluded(
    pass: Pass,
    row: RawRow,
    index: usize,
    ignore_submitted: bool,
)
    requires
        owed(pass.slot) == 0,
        resolve_record(row, previous_start(pass.slot)) is Ok,
        resolve_record(row, previous_start(pass.slot)).unwrap().end is Some,
        elapsed(
            resolve_record(row, previous_start(pass.slot)).unwrap().start,
            resolve_record(row, previous_start(pass.slot)).unwrap().end.unwrap(),
        ) < 0,
    ensures
        step(pass, row, index, ignore_submitted).tally.totals == pass.tally.totals,
{
}

/// The clock matters only to a record that the input leaves open: where the
/// pass over the rows ends with no record open, the whole pass is the same
/// at any two instants.
pub proof fn law_clock_only_closes_open_record(
    tally: Tally,
    rows: Seq<RawRow>,
    ignore_submitted: bool,
    now: Instant,
    later: Instant,
)
    requires
        owed(run(opening(tally), rows, ignore_submitted).slot) == 0,
    ensures
        aggregate(tally, rows, ignore_submitted, now) == aggregate(
            tally,
            rows,
            ignore_submitted,
            later,
        ),
        aggregate(tally, rows, ignore_submitted, now) == run(
            opening(tally),
            rows,
            ignore_submitted,
        ),
{
}

/// A record marked as submitted counts only where the mark is ignored:
/// with the filter on, settling a record whose field is `yes` changes
/// nothing, and with the filter off the same record is booked.
pub proof fn law_submitted_counts_only_when_ignored(tally: Tally, record: ResolvedRecord)
    requires
        record.submitted == seq!['y', 'e', 's'],
    ensures
        settled(tally, record, false) == tally,
        settled(tally, record, true) == booked(tally, record),
{
    assert(is_affirmative(record.submitted));
}

/// Whether every row of `rows` carries an affirmative or a negative token.
pub open spec fn all_marked(rows: Seq<RawRow>) -> bool {
    forall|i: int|
        0 <= i < rows.len() ==> is_affirmative((#[trigger] rows[i]).submitted) || is_negative(
            rows[i].submitted,
        )
}

/// Marked rows never contribute while the filter is on: a whole pass over
/// rows that all carry an affirmative or a negative token leaves the totals
/// as they were, whatever the rows say and whenever the pass ends.
pub proof fn law_marked_rows_never_contribute(tally: Tally, rows: Seq<RawRow>, now: Instant)
    requires
        all_marked(rows),
    ensures
        aggregate(tally, rows, false, now).tally == tally,
{
    lemma_marked_run(tally, rows);
}

/// After a run over marked rows the totals are as they were, and a record
/// that is still open is marked.
proof fn lemma_marked_run(tally: Tally, rows: Seq<RawRow>)
    requires
        all_marked(rows),
    ensures
        run(opening(tally), rows, false).tally == tally,
        match run(opening(tally), rows, false).slot {
            Pending::Open { record, row } => !counts(record.submitted, false),
            _ => true,
        },
    decreases rows.len(),
{
    if rows.len() > 0 {
        assert forall|i: int| 0 <= i < rows.drop_last().len() implies is_affirmative(
            (#[trigger] rows.drop_last()[i]).submitted,
        ) || is_negative(rows.drop_last()[i].submitted) by {
            assert(rows.drop_last()[i] == rows[i]);
        }
        lemma_marked_run(tally, rows.drop_last());
        assert(is_affirmative(rows[rows.len() - 1].submitted) || is_negative(
            rows[rows.len() - 1].submitted,
        ));
    }
}

/// A row whose start cannot be read is skipped: the totals and the lookback
/// stay as they were, so the next row sees the same previous record, and
/// the row is reported.
pub proof fn law_unreadable_start_skipped(
    pass: Pass,
    row: RawRow,
    index: usize,
    ignore_submitted: bool,
)
    requires
        naive_datetime_reading(row.start, TIMESTAMP_FORMAT@).is_none(),
        naive_time_reading(row.start, TIME_FORMAT@).is_none(),
    ensures
        step(pass, row, index, ignore_submitted).tally == pass.tally,
        step(pass, row, index, ignore_submitted).slot == pass.slot,
        step(pass, row, index, ignore_submitted).notices == pass.notices.push(
            Diagnostic::UnreadableStart { row: index },
        ),
{
}

/// Any row that cannot be resolved is skipped: the totals and the lookback
/// stay as they were.
pub proof fn law_unusable_row_skipped(
    pass: Pass,
    row: RawRow,
    index: usize,
    ignore_submitted: bool,
)
    requires
        resolve_record(row, previous_start(pass.slot)) is Err,
    ensures
        step(pass, row, index, ignore_submitted).tally == pass.tally,
        step(pass, row, index, ignore_submitted).slot == pass.slot,
{
}

/// Whether two lookbacks hold the same record, whatever the numbers of
/// their rows.
pub open spec fn same_lookback(a: Pending, b: Pending) -> bool {
    match (a, b) {
        (Pending::Unseen, Pending::Unseen) => true,
        (Pending::Closed { start: one }, Pending::Closed { start: other }) => one == other,
        (Pending::Open { record: one, row: _ }, Pending::Open { record: other, row: _ }) => one
            == other,
        _ => false,
    }
}

/// Whether two passes have the same totals and hold the same record in
/// their lookback.
pub open spec fn same_books(a: Pass, b: Pass) -> bool {
    a.tally == b.tally && same_lookback(a.slot, b.slot)
}

/// One row takes passes with the same books to passes with the same books,
/// whatever number the row has in each.
proof fn lemma_step_keeps_books(
    a: Pass,
    b: Pass,
    row: RawRow,
    i: usize,
    j: usize,
    ignore_submitted: bool,
)
    requires
        same_books(a, b),
    ensures
        same_books(step(a, row, i, ignore_submitted), step(b, row, j, ignore_submitted)),
{
}

/// A skipped row leaves no trace in the totals: a pass over rows among
/// which one cannot be resolved ends with the same totals, and with the
/// same record in its lookback, as the pass over the rows without it.
pub proof fn law_skipped_row_leaves_no_trace(
    start: Pass,
    before: Seq<RawRow>,
    unusable: RawRow,
    after: Seq<RawRow>,
    ignore_submitted: bool,
)
    requires
        resolve_record(unusable, previous_start(run(start, before, ignore_submitted).slot))
            is Err,
    ensures
        same_books(
            run(start, before + seq![unusable] + after, ignore_submitted),
            run(start, before + after, ignore_submitted),
        ),
    decreases after.len(),
{
    let with = before + seq![unusable] + after;
    let without = before + after;
    if after.len() == 0 {
        assert(with.drop_last() =~= before);
        assert(with.last() == unusable);
        assert(without =~= before);
    } else {
        let shorter = after.drop_last();
        law_skipped_row_leaves_no_trace(start, before, unusable, shorter, ignore_submitted);
        assert(with.drop_last() =~= before + seq![unusable] + shorter);
        assert(without.drop_last() =~= before + shorter);
        assert(with.last() == after.last());
        assert(without.last() == after.last());
        lemma_step_keeps_books(
            run(start, with.drop_last(), ignore_submitted),
            run(start, without.drop_last(), ignore_submitted),
            after.last(),
            (with.len() - 1) as usize,
            (without.len() - 1) as usize,
            ignore_submitted,
        );
    }
}

/// The accumulator never shrinks: settling a record lowers no total.
pub proof fn law_settling_never_shrinks(
    tally: Tally,
    record: ResolvedRecord,
    ignore_submitted: bool,
    day: int,
    project: Seq<char>,
)
    requires
        record.end is Some,
    ensures
        total_of(settled(tally, record, ignore_submitted).totals, day, project) >= total_of(
            tally.totals,
            day,
            project,
        ),
        settled(tally, record, ignore_submitted).longest >= tally.longest,
{
}

/// The accumulator never shrinks: a whole pass lowers no total.
pub proof fn law_pass_never_shrinks(
    tally: Tally,
    rows: Seq<RawRow>,
    ignore_submitted: bool,
    now: Instant,
    day: int,
    project: Seq<char>,
)
    ensures
        total_of(aggregate(tally, rows, ignore_submitted, now).tally.totals, day, project)
            >= total_of(tally.totals, day, project),
{
    lemma_run_never_shrinks(tally, rows, ignore_submitted, day, project);
    let ran = run(opening(tally), rows, ignore_submitted);
    match ran.slot {
        Pending::Open { record, row } => {
            law_settling_never_shrinks(
                ran.tally,
                closed_at(record, now),
                ignore_submitted,
                day,
                project,
            );
        },
        _ => {},
    }
}

/// A run over rows lowers no total.
proof fn lemma_run_never_shrinks(
    tally: Tally,
    rows: Seq<RawRow>,
    ignore_submitted: bool,
    day: int,
    project: Seq<char>,
)
    ensures
        total_of(run(opening(tally), rows, ignore_submitted).tally.totals, day, project)
            >= total_of(tally.totals, day, project),
    decreases rows.len(),
{
    if rows.len() > 0 {
        lemma_run_never_shrinks(tally, rows.drop_last(), ignore_submitted, day, project);
        let before = run(opening(tally), rows.drop_last(), ignore_submitted);
        let index = (rows.len() - 1) as usize;
        match resolve_record(rows.last(), previous_start(before.slot)) {
            Err(fault) => {},
            Ok(record) => {
                let closed = match before.slot {
                    Pending::Open { record: earlier, row: at } => settle(
                        before,
                        closed_at(earlier, record.start),
                        at,
                        ignore_submitted,
                    ),
                    _ => before,
                };
                match before.slot {
                    Pending::Open { record: earlier, row: at } => {
                        law_settling_never_shrinks(
                            before.tally,
                            closed_at(earlier, record.start),
                            ignore_submitted,
                            day,
                            project,
                        );
                    },
                    _ => {},
                }
                if !record.deferred {
                    law_settling_never_shrinks(
                        closed.tally,
                        record,
                        ignore_submitted,
                        day,
                        project,
                    );
                }
            },
        }
    }
}

} // verus!
