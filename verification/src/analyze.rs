//! The aggregator: one pass over the rows of a timesheet.
//!
//! The pass keeps one record of lookback. A row without an end leaves the
//! lookback open; the start of the next usable row closes it, and at the end
//! of the input the clock does. Each closed record goes through the
//! submission filter and is then booked on the day on which it starts.

use vstd::prelude::*;
use crate::clock::local_now;
use crate::ledger::{
    credit_day, credited, day_map, day_seconds, day_totals, days_in_order, heaviest,
    lemma_no_days, total_of, Accumulator, DayTimes, DayTotals,
};
use crate::names::name_len;
use crate::model::{
    elapsed, lemma_elapsed_bounded, seconds_between, Instant, ParsedTimesheetRecord, RawRow,
    ResolvedRecord, TimesheetRecord, MAX_SPAN,
};
use crate::parse::{parse_record, resolve_record, RowFault};
use crate::submission::{counts, is_counted};

verus! {

/// What a pass has summed up: the accumulator, and the length of the
/// longest project name that it has booked.
pub struct Tally {
    pub totals: Accumulator,
    pub longest: nat,
}

/// `tally` after the closed record `record` is booked: its seconds are
/// added on the day on which it starts, unless it ends before it starts and
/// so adds nothing. Its name counts for the longest name either way.
pub open spec fn booked(tally: Tally, record: ResolvedRecord) -> Tally {
    let gap = elapsed(record.start, record.end.unwrap());
    Tally {
        totals: if gap < 0 {
            tally.totals
        } else {
            credited(tally.totals, record.start.day as int, record.project, gap as nat)
        },
        longest: if name_len(record.project) > tally.longest {
            name_len(record.project)
        } else {
            tally.longest
        },
    }
}

/// The whole minutes by which the closed record `record` ends before it
/// starts, where it does.
pub open spec fn shortfall(record: ResolvedRecord) -> Option<u64> {
    let gap = elapsed(record.start, record.end.unwrap());
    if gap < 0 {
        Some(((-gap) / 60) as u64)
    } else {
        None
    }
}

/// What a pass reports beside its totals. `row` counts the rows of the
/// input from 0.
#[derive(Clone, Copy, Debug, PartialEq, Eq, Structural)]
pub enum Diagnostic {
    /// The row was skipped: its start cannot be read.
    UnreadableStart { row: usize },
    /// The row was skipped: its end cannot be read.
    UnreadableEnd { row: usize },
    /// The record of the row was dropped: it starts at `start` and ends at
    /// `end`, `minutes` whole minutes before it starts.
    NegativeDuration { row: usize, start: Instant, end: Instant, minutes: u64 },
    /// The record of the row was still open when the input ended, and the
    /// clock was taken for its end.
    AssumedEnd { row: usize },
}

/// The one record of lookback that a pass keeps, as a mathematical value.
pub enum Pending {
    /// No usable row has been seen.
    Unseen,
    /// The last usable row had an end; it started at `start`.
    Closed { start: Instant },
    /// The last usable row, number `row`, had no end and waits for one.
    Open { record: ResolvedRecord, row: usize },
}

/// The one record of lookback that a pass keeps.
#[derive(Debug)]
pub enum Lookback {
    /// No usable row has been seen.
    Unseen,
    /// The last usable row had an end; it started at `start`.
    Closed { start: Instant },
    /// The last usable row, number `row`, had no end and waits for one.
    Open { record: ParsedTimesheetRecord, row: usize },
}

impl View for Lookback {
    type V = Pending;

    open spec fn view(&self) -> Pending {
        match self {
            Lookback::Unseen => Pending::Unseen,
            Lookback::Closed { start } => Pending::Closed { start: *start },
            Lookback::Open { record, row } => Pending::Open { record: record@, row: *row },
        }
    }
}

impl Lookback {
    /// Whether a record waits for its end.
    pub fn is_open(&self) -> (open: bool)
        ensures
            open == (owed(self@) == 1),
    {
        match self {
            Lookback::Open { record: _, row: _ } => true,
            _ => false,
        }
    }

    /// The start of the last usable row, if there was one.
    pub fn previous_start(&self) -> (start: Option<Instant>)
        ensures
            start == previous_start(self@),
    {
        match self {
            Lookback::Unseen => None,
            Lookback::Closed { start } => Some(*start),
            Lookback::Open { record, row: _ } => Some(record.start),
        }
    }
}

/// The start of the last usable row, if there was one.
pub open spec fn previous_start(slot: Pending) -> Option<Instant> {
    match slot {
        Pending::Unseen => None,
        Pending::Closed { start } => Some(start),
        Pending::Open { record, row } => Some(record.start),
    }
}

/// How many records the lookback still has to book: one while it is open.
pub open spec fn owed(slot: Pending) -> int {
    match slot {
        Pending::Open { record, row } => 1,
        _ => 0,
    }
}

/// The state of a pass: the totals, the lookback, and what was reported.
pub struct Pass {
    pub tally: Tally,
    pub slot: Pending,
    pub notices: Seq<Diagnostic>,
}

/// `record` with `end` for its end.
pub open spec fn closed_at(record: ResolvedRecord, end: Instant) -> ResolvedRecord {
    ResolvedRecord { end: Some(end), ..record }
}

/// `tally` after the closed record `record` has gone through the submission
/// filter: booked where it counts, and nothing changed where it does not.
pub open spec fn settled(tally: Tally, record: ResolvedRecord, ignore_submitted: bool) -> Tally {
    if counts(record.submitted, ignore_submitted) {
        booked(tally, record)
    } else {
        tally
    }
}

/// What is reported when the closed record `record` of row `row` goes
/// through the submission filter: its shortfall, where it counts and ends
/// before it starts.
pub open spec fn settle_notices(record: ResolvedRecord, row: usize, ignore_submitted: bool) -> Seq<
    Diagnostic,
> {
    if counts(record.submitted, ignore_submitted) {
        match shortfall(record) {
            Some(minutes) => seq![
                Diagnostic::NegativeDuration {
                    row,
                    start: record.start,
                    end: record.end.unwrap(),
                    minutes,
                },
            ],
            None => Seq::empty(),
        }
    } else {
        Seq::empty()
    }
}

/// The pass after a closed record is settled; the lookback stays.
pub open spec fn settle(pass: Pass, record: ResolvedRecord, row: usize, ignore_submitted: bool)
    -> Pass {
    Pass {
        tally: settled(pass.tally, record, ignore_submitted),
        slot: pass.slot,
        notices: pass.notices + settle_notices(record, row, ignore_submitted),
    }
}

/// What is reported of a row that cannot be used.
pub open spec fn fault_notice(fault: RowFault, row: usize) -> Diagnostic {
    match fault {
        RowFault::UnreadableStart => Diagnostic::UnreadableStart { row },
        RowFault::UnreadableEnd => Diagnostic::UnreadableEnd { row },
    }
}

/// The pass after the row number `index` has been resolved to `outcome`.
///
/// A row that cannot be resolved is reported and changes nothing else: the
/// lookback stays as it was. A resolved row first closes an open lookback
/// with its own start, and that record is settled. Then the row's own
/// record is settled if it has an end. Last, the row becomes the lookback.
pub open spec fn taken(
    pass: Pass,
    outcome: Result<ResolvedRecord, RowFault>,
    index: usize,
    ignore_submitted: bool,
) -> Pass {
    match outcome {
        Err(fault) => Pass {
            tally: pass.tally,
            slot: pass.slot,
            notices: pass.notices.push(fault_notice(fault, index)),
        },
        Ok(record) => {
            let closed = match pass.slot {
                Pending::Open { record: earlier, row: at } => settle(
                    pass,
                    closed_at(earlier, record.start),
                    at,
                    ignore_submitted,
                ),
                _ => pass,
            };
            if record.deferred {
                Pass {
                    tally: closed.tally,
                    slot: Pending::Open { record, row: index },
                    notices: closed.notices,
                }
            } else {
                let own = settle(closed, record, index, ignore_submitted);
                Pass {
                    tally: own.tally,
                    slot: Pending::Closed { start: record.start },
                    notices: own.notices,
                }
            }
        },
    }
}

/// The pass after one more row, the row number `index`: the row is resolved
/// against the start of the lookback, and what it resolves to is taken.
pub open spec fn step(pass: Pass, row: RawRow, index: usize, ignore_submitted: bool) -> Pass {
    taken(pass, resolve_record(row, previous_start(pass.slot)), index, ignore_submitted)
}

/// What a resolved row is, as a mathematical value.
pub open spec fn outcome_view(outcome: Result<ParsedTimesheetRecord, RowFault>) -> Result<
    ResolvedRecord,
    RowFault,
> {
    match outcome {
        Ok(record) => Ok(record@),
        Err(fault) => Err(fault),
    }
}

/// The pass after all of `rows`, taken in their order.
pub open spec fn run(start: Pass, rows: Seq<RawRow>, ignore_submitted: bool) -> Pass
    decreases rows.len(),
{
    if rows.len() == 0 {
        start
    } else {
        step(
            run(start, rows.drop_last(), ignore_submitted),
            rows.last(),
            (rows.len() - 1) as usize,
            ignore_submitted,
        )
    }
}

/// The pass after the input has ended at the instant `now`: a lookback that
/// is still open is reported, closed with `now`, and settled.
pub open spec fn finish(pass: Pass, now: Instant, ignore_submitted: bool) -> Pass {
    match pass.slot {
        Pending::Open { record, row } => {
            let reported = Pass {
                tally: pass.tally,
                slot: Pending::Closed { start: record.start },
                notices: pass.notices.push(Diagnostic::AssumedEnd { row }),
            };
            settle(reported, closed_at(record, now), row, ignore_submitted)
        },
        _ => pass,
    }
}

/// A pass that starts from `tally` with no lookback and nothing reported.
pub open spec fn opening(tally: Tally) -> Pass {
    Pass { tally, slot: Pending::Unseen, notices: Seq::empty() }
}

/// One whole pass over `rows` that starts from `tally` and ends at `now`.
pub open spec fn aggregate(tally: Tally, rows: Seq<RawRow>, ignore_submitted: bool, now: Instant)
    -> Pass {
    finish(run(opening(tally), rows, ignore_submitted), now, ignore_submitted)
}

/// The mathematical values of the rows, in their order.
pub open spec fn raw_rows(rows: Seq<TimesheetRecord>) -> Seq<RawRow> {
    Seq::new(rows.len(), |i: int| rows[i]@)
}

/// The per-day, per-project time totals of a timesheet.
#[derive(Debug)]
pub struct Statistics {
    date_projects: Vec<DayTimes>,
    max_project_len: usize,
}

impl View for Statistics {
    type V = Tally;

    open spec fn view(&self) -> Tally {
        Tally { totals: self.totals(), longest: self.longest() }
    }
}

impl Statistics {
    /// The days with their projects, in the order of the report.
    pub closed spec fn listing(&self) -> Seq<DayTotals> {
        day_totals(self.date_projects@)
    }

    /// The length of the longest project name booked so far.
    pub closed spec fn longest(&self) -> nat {
        self.max_project_len as nat
    }

    /// The accumulator: seconds per day and project.
    pub open spec fn totals(&self) -> Accumulator {
        day_map(self.listing())
    }

    /// The seconds of the day that holds the most.
    pub open spec fn load(&self) -> nat {
        heaviest(self.listing())
    }

    /// The listing is in order: days by the calendar and without repeats,
    /// each with at least one project and with its seconds together within
    /// `u128`, projects by name and without repeats.
    pub open spec fn wf(&self) -> bool {
        days_in_order(self.listing())
    }

    /// Statistics with nothing booked.
    pub fn new() -> (fresh: Self)
        ensures
            fresh.wf(),
            fresh.listing() == Seq::<DayTotals>::empty(),
            fresh.load() == 0,
            fresh@ == (Tally { totals: Map::empty(), longest: 0 }),
    {
        let fresh = Statistics { date_projects: Vec::new(), max_project_len: 0 };
        proof {
            lemma_no_days();
            assert(fresh.listing() =~= Seq::<DayTotals>::empty());
        }
        fresh
    }

    /// The days with their projects, in the order of the report.
    pub fn days(&self) -> (listed: &Vec<DayTimes>)
        ensures
            day_totals(listed@) == self.listing(),
    {
        &self.date_projects
    }

    /// The length of the longest project name booked so far.
    pub fn max_project_len(&self) -> (longest: usize)
        ensures
            longest as nat == self.longest(),
    {
        self.max_project_len
    }

    /// The seconds booked on the project `project` on the day `day`; 0 where
    /// nothing is booked there.
    pub fn seconds_on(&self, day: i32, project: &String) -> (seconds: u128)
        requires
            self.wf(),
        ensures
            seconds as nat == total_of(self.totals(), day as int, project@),
    {
        day_seconds(&self.date_projects, day, project)
    }

    /// Raises the longest name's length to `len` where `len` is more.
    pub fn update_max_project_len(&mut self, len: usize)
        ensures
            final(self).listing() == old(self).listing(),
            final(self).longest() == if len as nat > old(self).longest() {
                len as nat
            } else {
                old(self).longest()
            },
    {
        if len > self.max_project_len {
            self.max_project_len = len;
        }
    }

    /// Books one closed record: adds the seconds from its start to its end
    /// to its project on the day on which it starts. A record that ends
    /// before it starts adds nothing, and the whole minutes of the shortfall
    /// are handed back.
    pub fn accumulate_record(&mut self, record: &ParsedTimesheetRecord) -> (short: Option<u64>)
        requires
            old(self).wf(),
            record.end.is_some(),
            old(self).load() + elapsed(record.start, record.end.unwrap()) <= u128::MAX,
        ensures
            final(self).wf(),
            final(self)@ == booked(old(self)@, record@),
            short == shortfall(record@),
            final(self).load() <= old(self).load() + MAX_SPAN,
    {
        proof {
            lemma_elapsed_bounded(record.start, record.end.unwrap());
        }
        self.update_max_project_len(record.project.as_str().as_bytes().len());
        let gap: i64 = seconds_between(record.start, record.end.unwrap());
        if gap < 0 {
            let behind: u64 = (-gap) as u64;
            Some(behind / 60)
        } else {
            credit_day(&mut self.date_projects, record.start.day, &record.project, gap as u128);
            None
        }
    }

    /// Puts one closed record, the record of row `row`, through the
    /// submission filter, books it where it counts, and reports a shortfall.
    pub fn settle(
        &mut self,
        record: &ParsedTimesheetRecord,
        row: usize,
        ignore_submitted: bool,
        notices: &mut Vec<Diagnostic>,
    )
        requires
            old(self).wf(),
            record.end.is_some(),
            old(self).load() + MAX_SPAN <= u128::MAX,
        ensures
            final(self).wf(),
            final(self)@ == settled(old(self)@, record@, ignore_submitted),
            final(notices)@ == old(notices)@ + settle_notices(record@, row, ignore_submitted),
            final(self).load() <= old(self).load() + MAX_SPAN,
    {
        if is_counted(record.submitted.as_str(), ignore_submitted) {
            proof {
                lemma_elapsed_bounded(record.start, record.end.unwrap());
            }
            match self.accumulate_record(record) {
                Some(minutes) => {
                    let notice = Diagnostic::NegativeDuration {
                        row,
                        start: record.start,
                        end: record.end.unwrap(),
                        minutes,
                    };
                    notices.push(notice);
                    proof {
                        assert(notices@ =~= old(notices)@ + seq![notice]);
                    }
                },
                None => {
                    proof {
                        assert(notices@ =~= old(notices)@ + Seq::<Diagnostic>::empty());
                    }
                },
            }
        } else {
            proof {
                assert(notices@ =~= old(notices)@ + Seq::<Diagnostic>::empty());
            }
        }
    }

    /// Takes what the row number `index` was resolved to into the pass: the
    /// one transition of the pass, from the lookback `slot` to the next one.
    /// An open lookback needs a closed record to settle it with: a resolved
    /// row without an end must be marked `deferred`.
    pub fn take(
        &mut self,
        slot: Lookback,
        outcome: Result<ParsedTimesheetRecord, RowFault>,
        index: usize,
        ignore_submitted: bool,
        notices: &mut Vec<Diagnostic>,
    ) -> (next: Lookback)
        requires
            old(self).wf(),
            old(self).load() + (owed(slot@) + 1) * MAX_SPAN <= u128::MAX,
            outcome matches Ok(record) ==> record.deferred || record.end.is_some(),
        ensures
            final(self).wf(),
            (Pass { tally: final(self)@, slot: next@, notices: final(notices)@ }) == taken(
                Pass { tally: old(self)@, slot: slot@, notices: old(notices)@ },
                outcome_view(outcome),
                index,
                ignore_submitted,
            ),
            final(self).load() + owed(next@) * MAX_SPAN <= old(self).load() + (owed(slot@) + 1)
                * MAX_SPAN,
    {
        match outcome {
            Err(fault) => {
                let notice = match fault {
                    RowFault::UnreadableStart => Diagnostic::UnreadableStart { row: index },
                    RowFault::UnreadableEnd => Diagnostic::UnreadableEnd { row: index },
                };
                notices.push(notice);
                slot
            },
            Ok(record) => {
                match slot {
                    Lookback::Open { record: earlier, row: at } => {
                        let mut earlier = earlier;
                        earlier.end = Some(record.start);
                        self.settle(&earlier, at, ignore_submitted, notices);
                    },
                    _ => {},
                }
                if record.deferred {
                    Lookback::Open { record, row: index }
                } else {
                    self.settle(&record, index, ignore_submitted, notices);
                    Lookback::Closed { start: record.start }
                }
            },
        }
    }

    /// Takes one more row, the row number `index`, into the pass: the row is
    /// resolved against the start of the lookback `slot`, and what it
    /// resolves to is taken.
    pub fn advance(
        &mut self,
        slot: Lookback,
        row: &TimesheetRecord,
        index: usize,
        ignore_submitted: bool,
        notices: &mut Vec<Diagnostic>,
    ) -> (next: Lookback)
        requires
            old(self).wf(),
            old(self).load() + (owed(slot@) + 1) * MAX_SPAN <= u128::MAX,
        ensures
            final(self).wf(),
            (Pass { tally: final(self)@, slot: next@, notices: final(notices)@ }) == step(
                Pass { tally: old(self)@, slot: slot@, notices: old(notices)@ },
                row@,
                index,
                ignore_submitted,
            ),
            final(self).load() + owed(next@) * MAX_SPAN <= old(self).load() + (owed(slot@) + 1)
                * MAX_SPAN,
    {
        let previous = slot.previous_start();
        let outcome = parse_record(row, previous);
        self.take(slot, outcome, index, ignore_submitted, notices)
    }

    /// Takes all of `rows` into the pass, in their order, and hands back the
    /// lookback that the last usable row leaves.
    pub fn absorb(
        &mut self,
        rows: &Vec<TimesheetRecord>,
        ignore_submitted: bool,
        notices: &mut Vec<Diagnostic>,
    ) -> (slot: Lookback)
        requires
            old(self).wf(),
            old(self).load() + rows.len() * MAX_SPAN <= u128::MAX,
        ensures
            final(self).wf(),
            (Pass { tally: final(self)@, slot: slot@, notices: final(notices)@ }) == run(
                Pass { tally: old(self)@, slot: Pending::Unseen, notices: old(notices)@ },
                raw_rows(rows@),
                ignore_submitted,
            ),
            final(self).load() + owed(slot@) * MAX_SPAN <= old(self).load() + rows.len()
                * MAX_SPAN,
    {
        let ghost start = Pass { tally: self@, slot: Pending::Unseen, notices: notices@ };
        let ghost raw = raw_rows(rows@);
        let mut slot = Lookback::Unseen;
        let mut i: usize = 0;
        proof {
            assert(raw.take(0) =~= Seq::<RawRow>::empty());
        }
        while i < rows.len()
            invariant
                i <= rows.len(),
                raw == raw_rows(rows@),
                self.wf(),
                (Pass { tally: self@, slot: slot@, notices: notices@ }) == run(
                    start,
                    raw.take(i as int),
                    ignore_submitted,
                ),
                self.load() + owed(slot@) * MAX_SPAN <= old(self).load() + i * MAX_SPAN,
                old(self).load() + rows.len() * MAX_SPAN <= u128::MAX,
            decreases rows.len() - i,
        {
            proof {
                assert(raw.take(i + 1).drop_last() =~= raw.take(i as int));
                assert(raw.take(i + 1).last() == rows@[i as int]@);
            }
            slot = self.advance(slot, &rows[i], i, ignore_submitted, notices);
            i += 1;
        }
        proof {
            assert(raw.take(i as int) =~= raw);
        }
        slot
    }

    /// Ends the pass at the instant `now`: a lookback that is still open is
    /// reported, closed with `now`, and settled.
    pub fn conclude(
        &mut self,
        slot: Lookback,
        now: Instant,
        ignore_submitted: bool,
        notices: &mut Vec<Diagnostic>,
    )
        requires
            old(self).wf(),
            old(self).load() + owed(slot@) * MAX_SPAN <= u128::MAX,
        ensures
            final(self).wf(),
            final(self)@ == finish(
                Pass { tally: old(self)@, slot: slot@, notices: old(notices)@ },
                now,
                ignore_submitted,
            ).tally,
            final(notices)@ == finish(
                Pass { tally: old(self)@, slot: slot@, notices: old(notices)@ },
                now,
                ignore_submitted,
            ).notices,
            final(self).load() <= old(self).load() + owed(slot@) * MAX_SPAN,
    {
        match slot {
            Lookback::Open { record, row } => {
                let mut record = record;
                record.end = Some(now);
                notices.push(Diagnostic::AssumedEnd { row });
                self.settle(&record, row, ignore_submitted, notices);
            },
            _ => {},
        }
    }

    /// Runs one whole pass over `rows` that ends at the instant `now`, and
    /// hands back what the pass reports.
    pub fn calculate_at(
        &mut self,
        rows: &Vec<TimesheetRecord>,
        ignore_submitted: bool,
        now: Instant,
    ) -> (notices: Vec<Diagnostic>)
        requires
            old(self).wf(),
            old(self).load() + rows.len() * MAX_SPAN <= u128::MAX,
        ensures
            final(self).wf(),
            final(self)@ == aggregate(old(self)@, raw_rows(rows@), ignore_submitted, now).tally,
            notices@ == aggregate(old(self)@, raw_rows(rows@), ignore_submitted, now).notices,
            final(self).load() <= old(self).load() + rows.len() * MAX_SPAN,
    {
        let mut notices: Vec<Diagnostic> = Vec::new();
        let slot = self.absorb(rows, ignore_submitted, &mut notices);
        self.conclude(slot, now, ignore_submitted, &mut notices);
        notices
    }

    /// Runs one whole pass over `rows`, and hands back what the pass
    /// reports. The clock is read once, after the last row, and only where
    /// the last usable row has left its record open: the result is that of
    /// `calculate_at` for the instant that was read.
    pub fn calculate(&mut self, rows: &Vec<TimesheetRecord>, ignore_submitted: bool) -> (notices:
        Vec<Diagnostic>)
        requires
            old(self).wf(),
            old(self).load() + rows.len() * MAX_SPAN <= u128::MAX,
        ensures
            final(self).wf(),
            exists|now: Instant|
                {
                    let whole = #[trigger] aggregate(
                        old(self)@,
                        raw_rows(rows@),
                        ignore_submitted,
                        now,
                    );
                    final(self)@ == whole.tally && notices@ == whole.notices
                },
            final(self).load() <= old(self).load() + rows.len() * MAX_SPAN,
    {
        let mut notices: Vec<Diagnostic> = Vec::new();
        let slot = self.absorb(rows, ignore_submitted, &mut notices);
        if slot.is_open() {
            let clock = local_now();
            let now = Instant { day: clock.0, secs: clock.1 };
            self.conclude(slot, now, ignore_submitted, &mut notices);
            proof {
                let whole = aggregate(old(self)@, raw_rows(rows@), ignore_submitted, now);
                assert(self@ == whole.tally && notices@ == whole.notices);
            }
        } else {
            proof {
                let any = Instant { day: 0, secs: 0 };
                let whole = aggregate(old(self)@, raw_rows(rows@), ignore_submitted, any);
                assert(self@ == whole.tally && notices@ == whole.notices);
            }
        }
        notices
    }
}

} // verus!
