//! The data of a timesheet: raw rows, instants, and resolved records.

use vstd::prelude::*;

verus! {

/// Seconds in one civil day.
pub const SECONDS_PER_DAY: i64 = 86_400;

/// A civil date and time of day, as written in a timesheet.
///
/// `day` counts days in the proleptic Gregorian calendar, with
/// 1 January of year 1 as day 1. `secs` counts seconds since midnight.
#[derive(Clone, Copy, Debug, PartialEq, Eq, Structural)]
pub struct Instant {
    pub day: i32,
    pub secs: u32,
}

impl Instant {
    /// The position of this instant on one line of seconds.
    pub open spec fn seconds(self) -> int {
        self.day as int * 86_400 + self.secs as int
    }

    /// Seconds on the line of `seconds`, computed.
    pub fn to_seconds(self) -> (total: i64)
        ensures
            total as int == self.seconds(),
    {
        let day: i64 = self.day as i64;
        let secs: i64 = self.secs as i64;
        day * SECONDS_PER_DAY + secs
    }

    /// The instant on the same calendar day at `secs` seconds past midnight.
    pub fn same_day_at(self, secs: u32) -> (moved: Instant)
        ensures
            moved == (Instant { day: self.day, secs }),
    {
        Instant { day: self.day, secs }
    }
}

/// Signed seconds from `start` to `end`.
pub open spec fn elapsed(start: Instant, end: Instant) -> int {
    end.seconds() - start.seconds()
}

/// The most seconds that can lie between two instants.
pub const MAX_SPAN: u64 = 371_089_469_255_295;

/// No two instants are further apart than `MAX_SPAN` seconds.
pub proof fn lemma_elapsed_bounded(start: Instant, end: Instant)
    ensures
        -(MAX_SPAN as int) <= elapsed(start, end) <= MAX_SPAN as int,
{
}

/// Computes the signed seconds from `start` to `end`.
pub fn seconds_between(start: Instant, end: Instant) -> (gap: i64)
    ensures
        gap as int == elapsed(start, end),
{
    proof {
        lemma_elapsed_bounded(start, end);
    }
    end.to_seconds() - start.to_seconds()
}

/// One line of a timesheet, exactly as it was read.
#[derive(Debug)]
pub struct TimesheetRecord {
    pub submitted: String,
    pub project: String,
    pub start: String,
    pub end: Option<String>,
    pub notes: String,
}

/// The mathematical value of a [`TimesheetRecord`].
pub struct RawRow {
    pub submitted: Seq<char>,
    pub project: Seq<char>,
    pub start: Seq<char>,
    pub end: Option<Seq<char>>,
    pub notes: Seq<char>,
}

impl View for TimesheetRecord {
    type V = RawRow;

    open spec fn view(&self) -> RawRow {
        RawRow {
            submitted: self.submitted@,
            project: self.project@,
            start: self.start@,
            end: match self.end {
                Some(text) => Some(text@),
                None => None,
            },
            notes: self.notes@,
        }
    }
}

/// A row whose start, and end if it has one, are resolved to instants.
///
/// `deferred` says that the row gave no end: the record stays open until the
/// next usable row starts or the input ends.
#[derive(Debug)]
pub struct ParsedTimesheetRecord {
    pub project: String,
    pub start: Instant,
    pub end: Option<Instant>,
    pub notes: String,
    pub deferred: bool,
    pub submitted: String,
}

/// The mathematical value of a [`ParsedTimesheetRecord`].
pub struct ResolvedRecord {
    pub project: Seq<char>,
    pub start: Instant,
    pub end: Option<Instant>,
    pub notes: Seq<char>,
    pub deferred: bool,
    pub submitted: Seq<char>,
}

impl View for ParsedTimesheetRecord {
    type V = ResolvedRecord;

    open spec fn view(&self) -> ResolvedRecord {
        ResolvedRecord {
            project: self.project@,
            start: self.start,
            end: self.end,
            notes: self.notes@,
            deferred: self.deferred,
            submitted: self.submitted@,
        }
    }
}

impl Clone for ParsedTimesheetRecord {
    fn clone(&self) -> (copy: Self)
        ensures
            copy@ == self@,
    {
        ParsedTimesheetRecord {
            project: self.project.clone(),
            start: self.start,
            end: self.end,
            notes: self.notes.clone(),
            deferred: self.deferred,
            submitted: self.submitted.clone(),
        }
    }
}

} // verus!
