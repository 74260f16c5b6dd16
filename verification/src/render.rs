//! The report: the totals of a pass, written out line by line.

use vstd::prelude::*;
use vstd::string::StrSliceExecFns;
use vstd::string::StringExecFns;
use crate::analyze::Statistics;
use crate::clock::{calendar_date_text, write_calendar_date};
use crate::ledger::{
    day_sum, day_totals, project_totals, DayTimes, DayTotals, ProjectTime, ProjectTotal,
};
use crate::names::name_len;

verus! {

/// Why no report can be written.
#[derive(Clone, Copy, Debug, PartialEq, Eq, Structural)]
pub enum ReportError {
    /// The calendar has no date for the day with this number.
    NoCalendarDate { day: i32 },
}

/// The character for one decimal digit.
pub open spec fn digit_char(digit: nat) -> char {
    if digit == 0 {
        '0'
    } else if digit == 1 {
        '1'
    } else if digit == 2 {
        '2'
    } else if digit == 3 {
        '3'
    } else if digit == 4 {
        '4'
    } else if digit == 5 {
        '5'
    } else if digit == 6 {
        '6'
    } else if digit == 7 {
        '7'
    } else if digit == 8 {
        '8'
    } else {
        '9'
    }
}

/// `n` in decimal digits, without leading zeros.
pub open spec fn decimal(n: nat) -> Seq<char>
    decreases n,
{
    if n < 10 {
        seq![digit_char(n)]
    } else {
        decimal(n / 10).push(digit_char(n % 10))
    }
}

/// `n` in decimal digits, with a leading zero where it has one digit.
pub open spec fn two_digits(n: nat) -> Seq<char> {
    if n < 10 {
        seq!['0', digit_char(n)]
    } else {
        decimal(n)
    }
}

/// A duration of `minutes` whole minutes as hours and minutes: `HH:MM`.
pub open spec fn clock_text(minutes: nat) -> Seq<char> {
    two_digits(minutes / 60) + seq![':'] + two_digits(minutes % 60)
}

/// `count` times the character `fill`.
pub open spec fn filled(fill: char, count: nat) -> Seq<char> {
    Seq::new(count, |i: int| fill)
}

/// `text` with as many `fill` before it as it has characters less than
/// `width`.
pub open spec fn padded(text: Seq<char>, width: nat, fill: char) -> Seq<char> {
    if text.len() < width {
        filled(fill, (width - text.len()) as nat) + text
    } else {
        text
    }
}

/// The length of the longest name among one day's projects.
pub open spec fn widest_name(projects: Seq<ProjectTotal>) -> nat
    decreases projects.len(),
{
    if projects.len() == 0 {
        0
    } else if name_len(projects.last().name) > widest_name(projects.drop_last()) {
        name_len(projects.last().name)
    } else {
        widest_name(projects.drop_last())
    }
}

/// The length of the longest project name among all days.
pub open spec fn widest(days: Seq<DayTotals>) -> nat
    decreases days.len(),
{
    if days.len() == 0 {
        0
    } else if widest_name(days.last().projects) > widest(days.drop_last()) {
        widest_name(days.last().projects)
    } else {
        widest(days.drop_last())
    }
}

/// The whole minutes of one day's projects together: each project's seconds
/// are cut to whole minutes before they are added.
pub open spec fn day_minutes(projects: Seq<ProjectTotal>) -> nat
    decreases projects.len(),
{
    if projects.len() == 0 {
        0
    } else {
        day_minutes(projects.drop_last()) + projects.last().seconds / 60
    }
}

/// The line of one project: the name, padded on its left with spaces to
/// `width`, and the project's time.
pub open spec fn project_line(project: ProjectTotal, width: nat) -> Seq<char> {
    seq![' ', ' '] + padded(project.name, width, ' ') + seq![' ', '|', ' '] + clock_text(
        project.seconds / 60,
    )
}

/// The line that sums up one day: `SUM`, padded on its left with dashes to
/// `width`, and the day's time.
pub open spec fn sum_line(projects: Seq<ProjectTotal>, width: nat) -> Seq<char> {
    seq![' ', ' '] + padded(seq!['S', 'U', 'M'], width, '-') + seq![' ', '|', ' '] + clock_text(
        day_minutes(projects),
    )
}

/// The rule under one day: ten dashes more than `width`.
pub open spec fn rule_line(width: nat) -> Seq<char> {
    filled('-', width + 10)
}

/// The first line of every report.
pub open spec fn header_line() -> Seq<char> {
    "=== REPORT ==="@
}

/// The lines of one day's projects, in their order.
pub open spec fn project_lines(projects: Seq<ProjectTotal>, width: nat) -> Seq<Seq<char>> {
    Seq::new(projects.len(), |i: int| project_line(projects[i], width))
}

/// The lines of one day: its date, its projects, its sum, and the rule.
pub open spec fn day_lines(day: DayTotals, date: Seq<char>, width: nat) -> Seq<Seq<char>> {
    seq![date] + project_lines(day.projects, width) + seq![
        sum_line(day.projects, width),
        rule_line(width),
    ]
}

/// The lines of all of `days`, in their order.
pub open spec fn report_days(days: Seq<DayTotals>, width: nat) -> Seq<Seq<char>>
    decreases days.len(),
{
    if days.len() == 0 {
        Seq::empty()
    } else {
        report_days(days.drop_last(), width) + day_lines(
            days.last(),
            calendar_date_text(days.last().day).unwrap(),
            width,
        )
    }
}

/// The whole report on `days`: the header, then day by day.
pub open spec fn report(days: Seq<DayTotals>) -> Seq<Seq<char>> {
    seq![header_line()] + report_days(days, widest(days))
}

/// Whether the calendar has a date for each of `days`.
pub open spec fn all_dated(days: Seq<DayTotals>) -> bool {
    forall|i: int| 0 <= i < days.len() ==> calendar_date_text((#[trigger] days[i]).day).is_some()
}

/// Whether `day` is the first of `days` for which the calendar has no date.
pub open spec fn first_undated(days: Seq<DayTotals>, day: int) -> bool {
    exists|i: int|
        0 <= i < days.len() && (#[trigger] days[i]).day == day && calendar_date_text(day).is_none()
            && all_dated(days.take(i))
}

/// The texts of the lines, in their order.
pub open spec fn texts(lines: Seq<String>) -> Seq<Seq<char>> {
    Seq::new(lines.len(), |i: int| lines[i]@)
}

/// One decimal digit as text.
fn digit_text(digit: u8) -> (text: &'static str)
    requires
        digit < 10,
    ensures
        text@ == seq![digit_char(digit as nat)],
{
    proof {
        reveal_strlit("0");
        reveal_strlit("1");
        reveal_strlit("2");
        reveal_strlit("3");
        reveal_strlit("4");
        reveal_strlit("5");
        reveal_strlit("6");
        reveal_strlit("7");
        reveal_strlit("8");
        reveal_strlit("9");
        assert("0"@ =~= seq!['0']);
        assert("1"@ =~= seq!['1']);
        assert("2"@ =~= seq!['2']);
        assert("3"@ =~= seq!['3']);
        assert("4"@ =~= seq!['4']);
        assert("5"@ =~= seq!['5']);
        assert("6"@ =~= seq!['6']);
        assert("7"@ =~= seq!['7']);
        assert("8"@ =~= seq!['8']);
        assert("9"@ =~= seq!['9']);
    }
    match digit {
        0 => "0",
        1 => "1",
        2 => "2",
        3 => "3",
        4 => "4",
        5 => "5",
        6 => "6",
        7 => "7",
        8 => "8",
        _ => "9",
    }
}

/// Writes `n` in decimal digits at the end of `out`.
pub fn write_decimal(n: u128, out: &mut String)
    ensures
        final(out)@ == old(out)@ + decimal(n as nat),
    decreases n,
{
    if n >= 10 {
        write_decimal(n / 10, out);
    }
    out.append(digit_text((n % 10) as u8));
    proof {
        assert(out@ =~= old(out)@ + decimal(n as nat));
    }
}

/// Writes `n` in at least two decimal digits at the end of `out`.
pub fn write_two_digits(n: u128, out: &mut String)
    ensures
        final(out)@ == old(out)@ + two_digits(n as nat),
{
    if n < 10 {
        proof {
            reveal_strlit("0");
        }
        out.append("0");
        out.append(digit_text(n as u8));
        proof {
            assert(out@ =~= old(out)@ + two_digits(n as nat));
        }
    } else {
        write_decimal(n, out);
    }
}

/// Writes a duration of `minutes` whole minutes as `HH:MM` at the end of
/// `out`.
pub fn write_clock(minutes: u128, out: &mut String)
    ensures
        final(out)@ == old(out)@ + clock_text(minutes as nat),
{
    write_two_digits(minutes / 60, out);
    proof {
        reveal_strlit(":");
    }
    out.append(":");
    write_two_digits(minutes % 60, out);
    proof {
        assert(":"@ =~= seq![':']);
        assert(out@ =~= old(out)@ + clock_text(minutes as nat));
    }
}

/// Writes `count` times the one character of `fill` at the end of `out`.
fn write_filled(fill: &str, count: usize, out: &mut String)
    requires
        fill@.len() == 1,
    ensures
        final(out)@ == old(out)@ + filled(fill@[0], count as nat),
{
    let mut i: usize = 0;
    proof {
        assert(out@ =~= old(out)@ + filled(fill@[0], 0));
    }
    while i < count
        invariant
            i <= count,
            fill@.len() == 1,
            out@ == old(out)@ + filled(fill@[0], i as nat),
        decreases count - i,
    {
        out.append(fill);
        i += 1;
        proof {
            assert(out@ =~= old(out)@ + filled(fill@[0], i as nat));
        }
    }
}

/// Writes `text` at the end of `out`, with the one character of `fill`
/// before it as often as `text` has characters less than `width`.
fn write_padded(text: &str, width: usize, fill: &str, out: &mut String)
    requires
        fill@.len() == 1,
    ensures
        final(out)@ == old(out)@ + padded(text@, width as nat, fill@[0]),
{
    let length: usize = text.unicode_len();
    if length < width {
        write_filled(fill, width - length, out);
    }
    out.append(text);
    proof {
        assert(out@ =~= old(out)@ + padded(text@, width as nat, fill@[0]));
    }
}

/// Writes the line of one project.
pub fn write_project_line(project: &ProjectTime, width: usize) -> (line: String)
    ensures
        line@ == project_line(project@, width as nat),
{
    let mut line = String::new();
    proof {
        reveal_strlit("  ");
        reveal_strlit(" ");
        reveal_strlit(" | ");
        assert("  "@ =~= seq![' ', ' ']);
        assert(" | "@ =~= seq![' ', '|', ' ']);
    }
    line.append("  ");
    write_padded(project.name.as_str(), width, " ", &mut line);
    line.append(" | ");
    write_clock(project.seconds / 60, &mut line);
    proof {
        assert(line@ =~= project_line(project@, width as nat));
    }
    line
}

/// Writes the line that sums up a day of `minutes` whole minutes.
pub fn write_sum_line(minutes: u128, width: usize) -> (line: String)
    ensures
        line@ == seq![' ', ' '] + padded(seq!['S', 'U', 'M'], width as nat, '-') + seq![
            ' ',
            '|',
            ' ',
        ] + clock_text(minutes as nat),
{
    let mut line = String::new();
    proof {
        reveal_strlit("  ");
        reveal_strlit("-");
        reveal_strlit("SUM");
        reveal_strlit(" | ");
        assert("  "@ =~= seq![' ', ' ']);
        assert("SUM"@ =~= seq!['S', 'U', 'M']);
        assert(" | "@ =~= seq![' ', '|', ' ']);
    }
    line.append("  ");
    write_padded("SUM", width, "-", &mut line);
    line.append(" | ");
    write_clock(minutes, &mut line);
    proof {
        assert(line@ =~= seq![' ', ' '] + padded(seq!['S', 'U', 'M'], width as nat, '-') + seq![
            ' ',
            '|',
            ' ',
        ] + clock_text(minutes as nat));
    }
    line
}

/// Writes the rule under a day.
pub fn write_rule_line(width: usize) -> (line: String)
    ensures
        line@ == rule_line(width as nat),
{
    let mut line = String::new();
    proof {
        reveal_strlit("-");
    }
    write_filled("-", width, &mut line);
    write_filled("-", 10, &mut line);
    proof {
        assert(line@ =~= rule_line(width as nat));
    }
    line
}

/// A part of a day's projects holds no more seconds than the whole day.
pub proof fn lemma_sum_take(projects: Seq<ProjectTotal>, count: int)
    requires
        0 <= count <= projects.len(),
    ensures
        day_sum(projects.take(count)) <= day_sum(projects),
    decreases projects.len(),
{
    if count == projects.len() {
        assert(projects.take(count) =~= projects);
    } else {
        assert(projects.take(count) =~= projects.drop_last().take(count));
        lemma_sum_take(projects.drop_last(), count);
    }
}

/// A day's whole minutes are no more than its seconds.
pub proof fn lemma_minutes_under_sum(projects: Seq<ProjectTotal>)
    ensures
        day_minutes(projects) <= day_sum(projects),
    decreases projects.len(),
{
    if projects.len() > 0 {
        lemma_minutes_under_sum(projects.drop_last());
    }
}

/// The length of the longest name among one day's projects.
pub fn longest_name(projects: &Vec<ProjectTime>) -> (longest: usize)
    ensures
        longest as nat == widest_name(project_totals(projects@)),
{
    let ghost listed = project_totals(projects@);
    let mut longest: usize = 0;
    let mut i: usize = 0;
    proof {
        assert(listed.take(0) =~= Seq::<ProjectTotal>::empty());
    }
    while i < projects.len()
        invariant
            i <= projects@.len(),
            listed == project_totals(projects@),
            longest as nat == widest_name(listed.take(i as int)),
        decreases projects@.len() - i,
    {
        proof {
            assert(listed.take(i + 1).drop_last() =~= listed.take(i as int));
            assert(listed.take(i + 1).last() == projects@[i as int]@);
        }
        let length: usize = projects[i].name.as_str().as_bytes().len();
        if length > longest {
            longest = length;
        }
        i += 1;
    }
    proof {
        assert(listed.take(i as int) =~= listed);
    }
    longest
}

/// The length of the longest project name in the accumulator: the width of
/// the report's first column.
pub fn get_max_project_len(statistics: &Statistics) -> (longest: usize)
    ensures
        longest as nat == widest(statistics.listing()),
{
    let days = statistics.days();
    let ghost listed = day_totals(days@);
    let mut longest: usize = 0;
    let mut i: usize = 0;
    proof {
        assert(listed.take(0) =~= Seq::<DayTotals>::empty());
    }
    while i < days.len()
        invariant
            i <= days@.len(),
            listed == day_totals(days@),
            longest as nat == widest(listed.take(i as int)),
        decreases days@.len() - i,
    {
        proof {
            assert(listed.take(i + 1).drop_last() =~= listed.take(i as int));
            assert(listed.take(i + 1).last() == days@[i as int]@);
        }
        let length: usize = longest_name(&days[i].projects);
        if length > longest {
            longest = length;
        }
        i += 1;
    }
    proof {
        assert(listed.take(i as int) =~= listed);
    }
    longest
}

/// Writes the lines of one day under the date `date`, at the end of
/// `lines`.
pub fn write_day(day: &DayTimes, date: String, width: usize, lines: &mut Vec<String>)
    requires
        day_sum(day@.projects) <= u128::MAX,
    ensures
        texts(final(lines)@) == texts(old(lines)@) + day_lines(day@, date@, width as nat),
{
    let ghost listed = day@.projects;
    lines.push(date);
    let mut minutes: u128 = 0;
    let mut i: usize = 0;
    proof {
        assert(listed.take(0) =~= Seq::<ProjectTotal>::empty());
        assert(texts(lines@) =~= texts(old(lines)@) + seq![date@] + project_lines(
            listed.take(0),
            width as nat,
        ));
    }
    while i < day.projects.len()
        invariant
            i <= day.projects@.len(),
            listed == project_totals(day.projects@),
            day_sum(listed) <= u128::MAX,
            minutes as nat == day_minutes(listed.take(i as int)),
            texts(lines@) == texts(old(lines)@) + seq![date@] + project_lines(
                listed.take(i as int),
                width as nat,
            ),
        decreases day.projects@.len() - i,
    {
        proof {
            assert(listed.take(i + 1).drop_last() =~= listed.take(i as int));
            assert(listed.take(i + 1).last() == day.projects@[i as int]@);
            lemma_sum_take(listed, i + 1);
            lemma_minutes_under_sum(listed.take(i + 1));
        }
        let ghost so_far = texts(lines@);
        let line = write_project_line(&day.projects[i], width);
        lines.push(line);
        minutes = minutes + day.projects[i].seconds / 60;
        i += 1;
        proof {
            assert(texts(lines@) =~= so_far.push(line@));
            assert(project_lines(listed.take(i as int), width as nat) =~= project_lines(
                listed.take(i - 1),
                width as nat,
            ).push(line@));
            assert(texts(lines@) =~= texts(old(lines)@) + seq![date@] + project_lines(
                listed.take(i as int),
                width as nat,
            ));
        }
    }
    proof {
        assert(listed.take(i as int) =~= listed);
    }
    let ghost so_far = texts(lines@);
    let sum = write_sum_line(minutes, width);
    let rule = write_rule_line(width);
    lines.push(sum);
    lines.push(rule);
    proof {
        assert(texts(lines@) =~= so_far.push(sum@).push(rule@));
        assert(texts(lines@) =~= texts(old(lines)@) + day_lines(day@, date@, width as nat));
    }
}

/// Writes the report on `statistics`: a header, then for each day in
/// calendar order its date, one line for each project, the day's sum, and a
/// rule. There is no report where the calendar has no date for a day.
pub fn render(statistics: &Statistics) -> (written: Result<Vec<String>, ReportError>)
    requires
        statistics.wf(),
    ensures
        match written {
            Ok(lines) => all_dated(statistics.listing()) && texts(lines@) == report(
                statistics.listing(),
            ),
            Err(ReportError::NoCalendarDate { day }) => first_undated(
                statistics.listing(),
                day as int,
            ),
        },
{
    let width: usize = get_max_project_len(statistics);
    let days = statistics.days();
    let ghost listed = day_totals(days@);
    let mut lines: Vec<String> = Vec::new();
    lines.push("=== REPORT ===".to_owned());
    let mut i: usize = 0;
    proof {
        assert(listed.take(0) =~= Seq::<DayTotals>::empty());
        assert(texts(lines@) =~= seq![header_line()] + report_days(listed.take(0), width as nat));
    }
    while i < days.len()
        invariant
            i <= days@.len(),
            listed == day_totals(days@),
            listed == statistics.listing(),
            statistics.wf(),
            all_dated(listed.take(i as int)),
            texts(lines@) == seq![header_line()] + report_days(
                listed.take(i as int),
                width as nat,
            ),
        decreases days@.len() - i,
    {
        proof {
            assert(listed.take(i + 1).drop_last() =~= listed.take(i as int));
            assert(listed.take(i + 1).last() == days@[i as int]@);
            assert(listed[i as int] == days@[i as int]@);
        }
        match write_calendar_date(days[i].day) {
            None => {
                return Err(ReportError::NoCalendarDate { day: days[i].day });
            },
            Some(date) => {
                write_day(&days[i], date, width, &mut lines);
                proof {
                    assert forall|k: int| 0 <= k < listed.take(i + 1).len() implies
                        calendar_date_text((#[trigger] listed.take(i + 1)[k]).day).is_some() by {
                        if k < i {
                            assert(listed.take(i as int)[k] == listed.take(i + 1)[k]);
                        }
                    }
                    assert(texts(lines@) =~= seq![header_line()] + report_days(
                        listed.take(i + 1),
                        width as nat,
                    ));
                }
            },
        }
        i += 1;
    }
    proof {
        assert(listed.take(i as int) =~= listed);
    }
    Ok(lines)
}

} // verus!
