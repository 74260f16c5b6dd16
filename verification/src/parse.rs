//! The record parser: from one raw row to one resolved record.

use vstd::prelude::*;
use crate::clock::{naive_datetime_reading, naive_time_reading, parse_naive_datetime, parse_naive_time};
use crate::model::{Instant, ParsedTimesheetRecord, RawRow, ResolvedRecord, TimesheetRecord};

verus! {

/// The format of a full date and time: `YYYY-MM-DD HH:MM`.
pub const TIMESTAMP_FORMAT: &'static str = "%Y-%m-%d %H:%M";

/// The format of a bare time of day: `HH:MM`.
pub const TIME_FORMAT: &'static str = "%H:%M";

/// Why a row cannot be used.
#[derive(Clone, Copy, Debug, PartialEq, Eq, Structural)]
pub enum RowFault {
    /// The start is neither a date and time nor a time of day on a known day.
    UnreadableStart,
    /// The end is given, and is neither a date and time nor a time of day.
    UnreadableEnd,
}

/// The instant that two readings of one text stand for: `full` is what the
/// text holds as a date and time, `bare` what it holds as a time of day.
///
/// A full date and time stands for itself. A bare time of day stands for
/// that time on the day of `anchor`; without an anchor it stands for nothing.
pub open spec fn placed(full: Option<(i32, u32)>, bare: Option<u32>, anchor: Option<Instant>)
    -> Option<Instant> {
    match full {
        Some(found) => Some(Instant { day: found.0, secs: found.1 }),
        None => match (bare, anchor) {
            (Some(secs), Some(near)) => Some(Instant { day: near.day, secs }),
            _ => None,
        },
    }
}

/// The instant that `text` stands for, after a record that started at
/// `anchor`: the text is read as a date and time, and as a time of day.
pub open spec fn resolve_instant(text: Seq<char>, anchor: Option<Instant>) -> Option<Instant> {
    placed(
        naive_datetime_reading(text, TIMESTAMP_FORMAT@),
        naive_time_reading(text, TIME_FORMAT@),
        anchor,
    )
}

/// Whether the row gives an end: the field is there and not empty.
pub open spec fn end_given(row: RawRow) -> bool {
    match row.end {
        Some(text) => text.len() > 0,
        None => false,
    }
}

/// The record that `row` resolves to after a record that started at
/// `previous`, or the fault that makes the row unusable.
pub open spec fn resolve_record(row: RawRow, previous: Option<Instant>) -> Result<
    ResolvedRecord,
    RowFault,
> {
    match resolve_instant(row.start, previous) {
        None => Err(RowFault::UnreadableStart),
        Some(start) => if !end_given(row) {
            Ok(
                ResolvedRecord {
                    project: row.project,
                    start,
                    end: None,
                    notes: row.notes,
                    deferred: true,
                    submitted: row.submitted,
                },
            )
        } else {
            match resolve_instant(row.end.unwrap(), Some(start)) {
                None => Err(RowFault::UnreadableEnd),
                Some(end) => Ok(
                    ResolvedRecord {
                        project: row.project,
                        start,
                        end: Some(end),
                        notes: row.notes,
                        deferred: false,
                        submitted: row.submitted,
                    },
                ),
            }
        },
    }
}

/// Chooses the instant that two readings of one text stand for.
pub fn place_instant(full: Option<(i32, u32)>, bare: Option<u32>, anchor: Option<Instant>) -> (found:
    Option<Instant>)
    ensures
        found == placed(full, bare, anchor),
{
    match full {
        Some(pair) => Some(Instant { day: pair.0, secs: pair.1 }),
        None => match (bare, anchor) {
            (Some(secs), Some(near)) => Some(near.same_day_at(secs)),
            _ => None,
        },
    }
}

/// Reads `text` as a date and time, or else as a time of day on the day of
/// `anchor`.
pub fn read_instant(text: &str, anchor: Option<Instant>) -> (found: Option<Instant>)
    ensures
        found == resolve_instant(text@, anchor),
{
    match parse_naive_datetime(text, TIMESTAMP_FORMAT) {
        Ok(pair) => place_instant(Some(pair), None, anchor),
        Err(_) => match parse_naive_time(text, TIME_FORMAT) {
            Ok(secs) => place_instant(None, Some(secs), anchor),
            Err(_) => place_instant(None, None, anchor),
        },
    }
}

/// Resolves the start of a row that follows a record started at `previous`.
pub fn parse_start(start: &str, previous: Option<Instant>) -> (found: Result<Instant, RowFault>)
    ensures
        found == match resolve_instant(start@, previous) {
            Some(instant) => Ok::<Instant, RowFault>(instant),
            None => Err(RowFault::UnreadableStart),
        },
{
    match read_instant(start, previous) {
        Some(instant) => Ok(instant),
        None => Err(RowFault::UnreadableStart),
    }
}

/// Resolves the end of a record that starts at `start`: a bare time of day
/// is taken on the day of `start`.
pub fn parse_end_date(end: &str, start: Instant) -> (found: Result<Instant, RowFault>)
    ensures
        found == match resolve_instant(end@, Some(start)) {
            Some(instant) => Ok::<Instant, RowFault>(instant),
            None => Err(RowFault::UnreadableEnd),
        },
{
    match read_instant(end, Some(start)) {
        Some(instant) => Ok(instant),
        None => Err(RowFault::UnreadableEnd),
    }
}

/// Resolves one row. The row is left open (`deferred`) where it gives no
/// end; it is refused where its start, or an end that it gives, cannot be
/// read.
pub fn parse_record(row: &TimesheetRecord, previous: Option<Instant>) -> (parsed: Result<
    ParsedTimesheetRecord,
    RowFault,
>)
    ensures
        match parsed {
            Ok(record) => resolve_record(row@, previous) == Ok::<ResolvedRecord, RowFault>(
                record@,
            ),
            Err(fault) => resolve_record(row@, previous) == Err::<ResolvedRecord, RowFault>(
                fault,
            ),
        },
{
    let start = match parse_start(row.start.as_str(), previous) {
        Ok(instant) => instant,
        Err(fault) => {
            return Err(fault);
        },
    };
    let end = match &row.end {
        Some(text) => if text.as_str().is_empty() {
            None
        } else {
            match parse_end_date(text.as_str(), start) {
                Ok(instant) => Some(instant),
                Err(fault) => {
                    return Err(fault);
                },
            }
        },
        None => None,
    };
    Ok(
        ParsedTimesheetRecord {
            project: row.project.clone(),
            start,
            end,
            notes: row.notes.clone(),
            deferred: end.is_none(),
            submitted: row.submitted.clone(),
        },
    )
}

} // verus!
