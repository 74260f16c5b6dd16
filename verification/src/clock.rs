//! The calendar, as `chrono` computes it.
//!
//! Reading a date or a time of day out of text, numbering the days, writing
//! a date, and reading the clock are left to `chrono`. The functions in this
//! file make those calls; their contracts are taken on trust from `chrono`'s
//! source and are not proved here.

use vstd::prelude::*;
use chrono::Datelike;
use chrono::Timelike;

verus! {

/// `chrono`'s account of why a text is no date or time.
#[verifier::external_type_specification]
#[verifier::external_body]
pub struct ExParseError(chrono::format::ParseError);

/// What `chrono::NaiveDateTime::parse_from_str` reads in `text` under
/// `format`: the day number (`num_days_from_ce`) and the seconds since
/// midnight (`num_seconds_from_midnight`) of the date-time, or `None` where
/// it reports an error.
pub uninterp spec fn naive_datetime_reading(text: Seq<char>, format: Seq<char>) -> Option<
    (i32, u32),
>;

/// What `chrono::NaiveTime::parse_from_str` reads in `text` under `format`:
/// the seconds since midnight (`num_seconds_from_midnight`) of the time, or
/// `None` where it reports an error.
pub uninterp spec fn naive_time_reading(text: Seq<char>, format: Seq<char>) -> Option<u32>;

/// How `chrono` writes the date with day number `day` under the format
/// `%Y-%m-%d`: `NaiveDate::from_num_days_from_ce_opt`, then
/// `NaiveDate::format`. `None` where `chrono` has no date with that number.
pub uninterp spec fn calendar_date_text(day: int) -> Option<Seq<char>>;

/// Calls `chrono::NaiveDateTime::parse_from_str(text, format)` and hands
/// back the day number and the seconds since midnight of what it read.
///
/// Trusted: the result depends on the two texts alone, so it is the value
/// that `naive_datetime_reading` names; an error of `chrono` comes back as
/// it is.
#[verifier::external_body]
pub(crate) fn parse_naive_datetime(text: &str, format: &str) -> (read: Result<
    (i32, u32),
    chrono::format::ParseError,
>)
    ensures
        match read {
            Ok(found) => naive_datetime_reading(text@, format@) == Some(found),
            Err(_) => naive_datetime_reading(text@, format@).is_none(),
        },
{
    match chrono::NaiveDateTime::parse_from_str(text, format) {
        Ok(moment) => Ok((moment.num_days_from_ce(), moment.num_seconds_from_midnight())),
        Err(problem) => Err(problem),
    }
}

/// Calls `chrono::NaiveTime::parse_from_str(text, format)` and hands back
/// the seconds since midnight of what it read.
///
/// Trusted: the result depends on the two texts alone, so it is the value
/// that `naive_time_reading` names; an error of `chrono` comes back as it
/// is.
#[verifier::external_body]
pub(crate) fn parse_naive_time(text: &str, format: &str) -> (read: Result<
    u32,
    chrono::format::ParseError,
>)
    ensures
        match read {
            Ok(found) => naive_time_reading(text@, format@) == Some(found),
            Err(_) => naive_time_reading(text@, format@).is_none(),
        },
{
    match chrono::NaiveTime::parse_from_str(text, format) {
        Ok(time) => Ok(time.num_seconds_from_midnight()),
        Err(problem) => Err(problem),
    }
}

/// Calls `chrono::NaiveDate::from_num_days_from_ce_opt(day)` and writes the
/// date with `format("%Y-%m-%d")`.
///
/// Trusted: the text depends on `day` alone, so it is the value that
/// `calendar_date_text` names, and there is none exactly where `chrono`
/// finds no date.
#[verifier::external_body]
pub(crate) fn write_calendar_date(day: i32) -> (text: Option<String>)
    ensures
        match text {
            Some(written) => calendar_date_text(day as int) == Some(written@),
            None => calendar_date_text(day as int).is_none(),
        },
{
    match chrono::NaiveDate::from_num_days_from_ce_opt(day) {
        Some(date) => Some(date.format("%Y-%m-%d").to_string()),
        None => None,
    }
}

/// Calls `chrono::Local::now()` and hands back the day number and the
/// seconds since midnight of the local civil time.
///
/// Trusted, and nothing is claimed: each call reads the clock anew.
#[verifier::external_body]
pub(crate) fn local_now() -> (now: (i32, u32)) {
    let moment = chrono::Local::now().naive_local();
    (moment.num_days_from_ce(), moment.num_seconds_from_midnight())
}

} // verus!
