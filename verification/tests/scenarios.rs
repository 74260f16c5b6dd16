use timetracking::analyze::{Diagnostic, Lookback, Statistics};
use timetracking::model::{Instant, ParsedTimesheetRecord, TimesheetRecord};
use timetracking::parse::RowFault;

const MAY_FIRST: i32 = 737_911;

fn row(submitted: &str, project: &str, start: &str, end: &str, notes: &str) -> TimesheetRecord {
    TimesheetRecord {
        submitted: submitted.to_string(),
        project: project.to_string(),
        start: start.to_string(),
        end: if end.is_empty() { None } else { Some(end.to_string()) },
        notes: notes.to_string(),
    }
}

fn at(day: i32, hour: u32, minute: u32) -> Instant {
    Instant { day, secs: hour * 3600 + minute * 60 }
}

fn seconds(stats: &Statistics, day: i32, project: &str) -> u128 {
    stats.seconds_on(day, &project.to_string())
}

#[test]
fn two_closed_rows_on_one_day() {
    let rows = vec![
        row("", "ProjA", "2021-05-01 09:00", "2021-05-01 10:30", ""),
        row("", "ProjB", "2021-05-01 10:30", "2021-05-01 12:00", ""),
    ];
    let mut stats = Statistics::new();
    let notices = stats.calculate_at(&rows, false, at(MAY_FIRST, 13, 0));
    assert!(notices.is_empty());
    let days = stats.days();
    assert_eq!(days.len(), 1);
    assert_eq!(days[0].day, MAY_FIRST);
    assert_eq!(days[0].projects.len(), 2);
    assert_eq!(days[0].projects[0].name, "ProjA");
    assert_eq!(days[0].projects[0].seconds, 90 * 60);
    assert_eq!(days[0].projects[1].name, "ProjB");
    assert_eq!(days[0].projects[1].seconds, 90 * 60);
    assert_eq!(stats.max_project_len(), 5);
}

#[test]
fn open_row_is_closed_by_the_next_start() {
    let rows = vec![
        row("", "ProjA", "2021-05-01 09:00", "", ""),
        row("", "ProjA", "2021-05-01 10:00", "2021-05-01 10:30", ""),
    ];
    let mut stats = Statistics::new();
    let notices = stats.calculate_at(&rows, false, at(MAY_FIRST, 13, 0));
    assert!(notices.is_empty());
    assert_eq!(stats.days().len(), 1);
    assert_eq!(stats.days()[0].projects.len(), 1);
    assert_eq!(seconds(&stats, MAY_FIRST, "ProjA"), 90 * 60);
}

#[test]
fn empty_end_text_leaves_the_row_open() {
    let mut first = row("", "ProjA", "2021-05-01 09:00", "", "");
    first.end = Some(String::new());
    let rows = vec![first, row("", "ProjA", "2021-05-01 10:00", "2021-05-01 10:30", "")];
    let mut stats = Statistics::new();
    let notices = stats.calculate_at(&rows, false, at(MAY_FIRST, 13, 0));
    assert!(notices.is_empty());
    assert_eq!(seconds(&stats, MAY_FIRST, "ProjA"), 90 * 60);
}

#[test]
fn open_row_gains_next_start_less_own_start() {
    let rows = vec![
        row("", "Alpha", "2021-05-01 08:15", "", ""),
        row("", "Beta", "2021-05-01 11:40", "", ""),
    ];
    let mut stats = Statistics::new();
    let mut notices = Vec::new();
    let slot = stats.absorb(&rows, false, &mut notices);
    assert!(notices.is_empty());
    assert_eq!(seconds(&stats, MAY_FIRST, "Alpha"), (3 * 60 + 25) * 60);
    assert_eq!(seconds(&stats, MAY_FIRST, "Beta"), 0);
    match slot {
        Lookback::Open { record, row } => {
            assert_eq!(row, 1);
            assert_eq!(record.project, "Beta");
            assert_eq!(record.start, at(MAY_FIRST, 11, 40));
            assert_eq!(record.end, None);
            assert!(record.deferred);
        }
        _ => panic!("the second row has no end"),
    }
}

#[test]
fn open_row_is_booked_on_the_day_it_starts() {
    let rows = vec![
        row("", "Night", "2021-05-01 23:00", "", ""),
        row("", "Day", "2021-05-02 01:00", "2021-05-02 02:00", ""),
    ];
    let mut stats = Statistics::new();
    stats.calculate_at(&rows, false, at(MAY_FIRST + 1, 13, 0));
    assert_eq!(seconds(&stats, MAY_FIRST, "Night"), 2 * 3600);
    assert_eq!(seconds(&stats, MAY_FIRST + 1, "Night"), 0);
    assert_eq!(seconds(&stats, MAY_FIRST + 1, "Day"), 3600);
    assert_eq!(stats.days().len(), 2);
    assert_eq!(stats.days()[0].day, MAY_FIRST);
    assert_eq!(stats.days()[1].day, MAY_FIRST + 1);
}

#[test]
fn end_before_start_adds_nothing() {
    let rows = vec![
        row("", "ProjA", "2021-05-01 09:00", "2021-05-01 10:00", ""),
        row("", "ProjA", "2021-05-01 12:00", "2021-05-01 10:30", ""),
    ];
    let mut stats = Statistics::new();
    let notices = stats.calculate_at(&rows, false, at(MAY_FIRST, 13, 0));
    assert_eq!(notices, vec![Diagnostic::NegativeDuration {
            row: 1,
            start: at(MAY_FIRST, 12, 0),
            end: at(MAY_FIRST, 10, 30),
            minutes: 90
        }]);
    assert_eq!(seconds(&stats, MAY_FIRST, "ProjA"), 3600);
    assert_eq!(stats.days().len(), 1);
}

#[test]
fn end_before_start_alone_leaves_the_accumulator_empty() {
    let rows = vec![row("", "Backwards", "2021-05-01 12:00", "2021-05-01 11:59", "")];
    let mut stats = Statistics::new();
    let notices = stats.calculate_at(&rows, false, at(MAY_FIRST, 13, 0));
    assert_eq!(notices, vec![Diagnostic::NegativeDuration {
            row: 0,
            start: at(MAY_FIRST, 12, 0),
            end: at(MAY_FIRST, 11, 59),
            minutes: 1
        }]);
    assert!(stats.days().is_empty());
    assert_eq!(stats.max_project_len(), 9);
}

#[test]
fn open_row_closed_by_an_earlier_start_adds_nothing() {
    let rows = vec![
        row("", "ProjA", "2021-05-01 12:00", "", ""),
        row("", "ProjB", "2021-05-01 09:00", "2021-05-01 09:30", ""),
    ];
    let mut stats = Statistics::new();
    let notices = stats.calculate_at(&rows, false, at(MAY_FIRST, 13, 0));
    assert_eq!(notices, vec![Diagnostic::NegativeDuration {
            row: 0,
            start: at(MAY_FIRST, 12, 0),
            end: at(MAY_FIRST, 9, 0),
            minutes: 180
        }]);
    assert_eq!(seconds(&stats, MAY_FIRST, "ProjA"), 0);
    assert_eq!(seconds(&stats, MAY_FIRST, "ProjB"), 30 * 60);
}

#[test]
fn two_passes_over_the_same_rows_agree() {
    let rows = vec![
        row("", "ProjA", "2021-05-01 09:00", "", ""),
        row("", "ProjB", "10:00", "11:15", ""),
        row("yes", "ProjC", "11:15", "12:00", ""),
        row("", "ProjA", "2021-05-02 09:00", "09:45", ""),
    ];
    let mut first = Statistics::new();
    let mut second = Statistics::new();
    let first_notices = first.calculate(&rows, false);
    let second_notices = second.calculate(&rows, false);
    assert_eq!(first_notices, second_notices);
    assert_eq!(first.max_project_len(), second.max_project_len());
    assert_eq!(first.days().len(), 2);
    assert_eq!(second.days().len(), 2);
    for (a, b) in first.days().iter().zip(second.days().iter()) {
        assert_eq!(a.day, b.day);
        assert_eq!(a.projects.len(), b.projects.len());
        for (p, q) in a.projects.iter().zip(b.projects.iter()) {
            assert_eq!(p.name, q.name);
            assert_eq!(p.seconds, q.seconds);
        }
    }
    assert_eq!(seconds(&first, MAY_FIRST, "ProjA"), 3600);
    assert_eq!(seconds(&first, MAY_FIRST, "ProjB"), 75 * 60);
    assert_eq!(seconds(&first, MAY_FIRST, "ProjC"), 0);
    assert_eq!(seconds(&first, MAY_FIRST + 1, "ProjA"), 45 * 60);
}

#[test]
fn pass_at_two_instants_agrees_when_nothing_is_left_open() {
    let rows = vec![row("", "ProjA", "2021-05-01 09:00", "2021-05-01 10:30", "")];
    let mut early = Statistics::new();
    let mut late = Statistics::new();
    early.calculate_at(&rows, false, at(MAY_FIRST, 11, 0));
    late.calculate_at(&rows, false, at(MAY_FIRST + 400, 23, 59));
    assert_eq!(seconds(&early, MAY_FIRST, "ProjA"), 90 * 60);
    assert_eq!(seconds(&late, MAY_FIRST, "ProjA"), 90 * 60);
    assert_eq!(early.days().len(), late.days().len());
}

#[test]
fn submitted_row_counts_only_when_the_mark_is_ignored() {
    let rows = vec![row("yes", "ProjA", "2021-05-01 09:00", "2021-05-01 10:30", "")];
    let mut filtered = Statistics::new();
    filtered.calculate_at(&rows, false, at(MAY_FIRST, 13, 0));
    assert!(filtered.days().is_empty());
    assert_eq!(seconds(&filtered, MAY_FIRST, "ProjA"), 0);
    assert_eq!(filtered.max_project_len(), 0);

    let mut unfiltered = Statistics::new();
    unfiltered.calculate_at(&rows, true, at(MAY_FIRST, 13, 0));
    assert_eq!(seconds(&unfiltered, MAY_FIRST, "ProjA"), 90 * 60);
    assert_eq!(unfiltered.max_project_len(), 5);
}

#[test]
fn every_token_excludes_in_any_case() {
    for mark in ["y", "Y", "yes", "Yes", "YES", "true", "TRUE", "tRuE", "n", "N", "no", "NO", "false", "False"] {
        let rows = vec![row(mark, "ProjA", "2021-05-01 09:00", "2021-05-01 10:30", "")];
        let mut stats = Statistics::new();
        stats.calculate_at(&rows, false, at(MAY_FIRST, 13, 0));
        assert_eq!(seconds(&stats, MAY_FIRST, "ProjA"), 0, "mark {:?}", mark);
    }
}

#[test]
fn other_marks_leave_the_row_pending() {
    for mark in ["", "maybe", "ye", "yess", " yes", "nope", "0", "1", "#", "t", "f"] {
        let rows = vec![row(mark, "ProjA", "2021-05-01 09:00", "2021-05-01 10:30", "")];
        let mut stats = Statistics::new();
        stats.calculate_at(&rows, false, at(MAY_FIRST, 13, 0));
        assert_eq!(seconds(&stats, MAY_FIRST, "ProjA"), 90 * 60, "mark {:?}", mark);
    }
}

#[test]
fn submitted_open_row_is_filtered_when_it_is_closed() {
    let rows = vec![
        row("yes", "Done", "2021-05-01 09:00", "", ""),
        row("", "Todo", "2021-05-01 10:00", "", ""),
        row("no", "Skip", "2021-05-01 11:00", "", ""),
    ];
    let mut stats = Statistics::new();
    let notices = stats.calculate_at(&rows, false, at(MAY_FIRST, 12, 0));
    assert_eq!(notices, vec![Diagnostic::AssumedEnd { row: 2 }]);
    assert_eq!(seconds(&stats, MAY_FIRST, "Done"), 0);
    assert_eq!(seconds(&stats, MAY_FIRST, "Todo"), 3600);
    assert_eq!(seconds(&stats, MAY_FIRST, "Skip"), 0);
}

#[test]
fn bad_start_is_skipped_and_not_seen_as_previous() {
    let rows = vec![
        row("", "ProjA", "2021-05-01 09:00", "", ""),
        row("", "Broken", "half past nine", "2021-05-01 09:45", ""),
        row("", "ProjB", "10:00", "10:30", ""),
    ];
    let mut stats = Statistics::new();
    let notices = stats.calculate_at(&rows, false, at(MAY_FIRST, 13, 0));
    assert_eq!(notices, vec![Diagnostic::UnreadableStart { row: 1 }]);
    assert_eq!(seconds(&stats, MAY_FIRST, "ProjA"), 3600);
    assert_eq!(seconds(&stats, MAY_FIRST, "ProjB"), 30 * 60);
    assert_eq!(seconds(&stats, MAY_FIRST, "Broken"), 0);
    assert_eq!(stats.max_project_len(), 5);
}

#[test]
fn bad_row_leaves_the_lookback_as_it_was() {
    let mut stats = Statistics::new();
    let mut notices = Vec::new();
    let good = row("", "ProjA", "2021-05-01 09:00", "", "");
    let bad = row("", "Broken", "25:61", "", "");
    let slot = stats.advance(Lookback::Unseen, &good, 0, false, &mut notices);
    let slot = stats.advance(slot, &bad, 1, false, &mut notices);
    assert_eq!(notices, vec![Diagnostic::UnreadableStart { row: 1 }]);
    assert!(stats.days().is_empty());
    match slot {
        Lookback::Open { record, row } => {
            assert_eq!(row, 0);
            assert_eq!(record.project, "ProjA");
            assert_eq!(record.start, at(MAY_FIRST, 9, 0));
        }
        _ => panic!("the first row is still open"),
    }
}

#[test]
fn bad_end_is_skipped() {
    let rows = vec![
        row("", "ProjA", "2021-05-01 09:00", "later", ""),
        row("", "ProjB", "2021-05-01 10:00", "2021-05-01 10:30", ""),
    ];
    let mut stats = Statistics::new();
    let notices = stats.calculate_at(&rows, false, at(MAY_FIRST, 13, 0));
    assert_eq!(notices, vec![Diagnostic::UnreadableEnd { row: 0 }]);
    assert_eq!(seconds(&stats, MAY_FIRST, "ProjA"), 0);
    assert_eq!(seconds(&stats, MAY_FIRST, "ProjB"), 30 * 60);
}

#[test]
fn bare_time_before_any_date_is_skipped() {
    let rows = vec![
        row("", "ProjA", "09:00", "10:00", ""),
        row("", "ProjB", "2021-05-01 10:00", "11:00", ""),
    ];
    let mut stats = Statistics::new();
    let notices = stats.calculate_at(&rows, false, at(MAY_FIRST, 13, 0));
    assert_eq!(notices, vec![Diagnostic::UnreadableStart { row: 0 }]);
    assert_eq!(seconds(&stats, MAY_FIRST, "ProjA"), 0);
    assert_eq!(seconds(&stats, MAY_FIRST, "ProjB"), 3600);
}

#[test]
fn last_open_row_is_closed_by_the_given_instant() {
    let rows = vec![
        row("", "ProjA", "2021-05-01 09:00", "2021-05-01 10:00", ""),
        row("", "ProjB", "2021-05-01 10:00", "", ""),
    ];
    let mut stats = Statistics::new();
    let notices = stats.calculate_at(&rows, false, Instant { day: MAY_FIRST, secs: 12 * 3600 + 59 });
    assert_eq!(notices, vec![Diagnostic::AssumedEnd { row: 1 }]);
    assert_eq!(seconds(&stats, MAY_FIRST, "ProjA"), 3600);
    assert_eq!(seconds(&stats, MAY_FIRST, "ProjB"), 2 * 3600 + 59);
}

#[test]
fn last_open_row_closed_before_its_start_adds_nothing() {
    let rows = vec![row("", "ProjB", "2021-05-01 10:00", "", "")];
    let mut stats = Statistics::new();
    let notices = stats.calculate_at(&rows, false, at(MAY_FIRST, 9, 0));
    assert_eq!(
        notices,
        vec![
            Diagnostic::AssumedEnd { row: 0 },
            Diagnostic::NegativeDuration {
                row: 0,
                start: at(MAY_FIRST, 10, 0),
                end: at(MAY_FIRST, 9, 0),
                minutes: 60
            }
        ]
    );
    assert!(stats.days().is_empty());
}

#[test]
fn clock_closes_the_last_open_row() {
    let rows = vec![row("", "ProjA", "2021-05-01 09:00", "", "")];
    let mut stats = Statistics::new();
    let notices = stats.calculate(&rows, false);
    assert_eq!(notices, vec![Diagnostic::AssumedEnd { row: 0 }]);
    assert_eq!(stats.days().len(), 1);
    assert_eq!(stats.days()[0].day, MAY_FIRST);
    let total = seconds(&stats, MAY_FIRST, "ProjA");
    assert!(total > 365 * 86_400);
}

#[test]
fn clock_is_not_needed_when_nothing_is_left_open() {
    let rows = vec![
        row("", "ProjA", "2021-05-01 09:00", "", ""),
        row("", "ProjA", "2021-05-01 10:00", "2021-05-01 10:30", ""),
    ];
    let mut stats = Statistics::new();
    let notices = stats.calculate(&rows, false);
    assert!(notices.is_empty());
    assert_eq!(seconds(&stats, MAY_FIRST, "ProjA"), 90 * 60);
}

#[test]
fn no_rows_leave_everything_empty() {
    let rows: Vec<TimesheetRecord> = Vec::new();
    let mut stats = Statistics::new();
    let notices = stats.calculate(&rows, false);
    assert!(notices.is_empty());
    assert!(stats.days().is_empty());
    assert_eq!(stats.max_project_len(), 0);
}

#[test]
fn second_pass_adds_to_the_first() {
    let rows = vec![row("", "ProjA", "2021-05-01 09:00", "2021-05-01 10:30", "")];
    let mut stats = Statistics::new();
    stats.calculate_at(&rows, false, at(MAY_FIRST, 13, 0));
    stats.calculate_at(&rows, false, at(MAY_FIRST, 13, 0));
    assert_eq!(seconds(&stats, MAY_FIRST, "ProjA"), 180 * 60);
    assert_eq!(stats.days().len(), 1);
    assert_eq!(stats.days()[0].projects.len(), 1);
}

#[test]
fn days_and_projects_come_out_in_order() {
    let rows = vec![
        row("", "zeta", "2021-05-03 09:00", "10:00", ""),
        row("", "alpha", "2021-05-01 09:00", "10:00", ""),
        row("", "Zulu", "2021-05-01 10:00", "11:00", ""),
        row("", "mid", "2021-05-02 09:00", "10:00", ""),
        row("", "alphabet", "2021-05-01 11:00", "12:00", ""),
        row("", "alpha", "2021-05-01 12:00", "12:30", ""),
    ];
    let mut stats = Statistics::new();
    let notices = stats.calculate_at(&rows, false, at(MAY_FIRST + 2, 13, 0));
    assert!(notices.is_empty());
    let days = stats.days();
    let day_numbers: Vec<i32> = days.iter().map(|d| d.day).collect();
    assert_eq!(day_numbers, vec![MAY_FIRST, MAY_FIRST + 1, MAY_FIRST + 2]);
    let names: Vec<&str> = days[0].projects.iter().map(|p| p.name.as_str()).collect();
    assert_eq!(names, vec!["Zulu", "alpha", "alphabet"]);
    assert_eq!(days[0].projects[1].seconds, 90 * 60);
    assert_eq!(stats.max_project_len(), 8);
}

fn open_record(project: &str, start: Instant, submitted: &str) -> ParsedTimesheetRecord {
    ParsedTimesheetRecord {
        project: project.to_string(),
        start,
        end: None,
        notes: String::new(),
        deferred: true,
        submitted: submitted.to_string(),
    }
}

#[test]
fn lookback_knows_the_previous_start() {
    assert_eq!(Lookback::Unseen.previous_start(), None);
    assert!(!Lookback::Unseen.is_open());
    let closed = Lookback::Closed { start: at(MAY_FIRST, 9, 0) };
    assert_eq!(closed.previous_start(), Some(at(MAY_FIRST, 9, 0)));
    assert!(!closed.is_open());
    let open = Lookback::Open { record: open_record("ProjA", at(MAY_FIRST, 10, 0), ""), row: 4 };
    assert_eq!(open.previous_start(), Some(at(MAY_FIRST, 10, 0)));
    assert!(open.is_open());
}

#[test]
fn taking_resolved_rows_one_by_one() {
    let mut stats = Statistics::new();
    let mut notices = Vec::new();
    let first = open_record("ProjA", at(MAY_FIRST, 9, 0), "");
    let slot = stats.take(Lookback::Unseen, Ok(first), 0, false, &mut notices);
    assert!(slot.is_open());
    let slot = stats.take(slot, Err(RowFault::UnreadableEnd), 1, false, &mut notices);
    assert!(slot.is_open());
    assert_eq!(notices, vec![Diagnostic::UnreadableEnd { row: 1 }]);
    let mut second = open_record("ProjB", at(MAY_FIRST, 9, 40), "");
    second.end = Some(at(MAY_FIRST, 10, 0));
    second.deferred = false;
    let slot = stats.take(slot, Ok(second), 2, false, &mut notices);
    assert!(!slot.is_open());
    assert_eq!(slot.previous_start(), Some(at(MAY_FIRST, 9, 40)));
    assert_eq!(seconds(&stats, MAY_FIRST, "ProjA"), 40 * 60);
    assert_eq!(seconds(&stats, MAY_FIRST, "ProjB"), 20 * 60);
    assert_eq!(notices.len(), 1);
}

#[test]
fn concluding_closes_only_an_open_lookback() {
    let mut stats = Statistics::new();
    let mut notices = Vec::new();
    stats.conclude(Lookback::Unseen, at(MAY_FIRST, 12, 0), false, &mut notices);
    stats.conclude(Lookback::Closed { start: at(MAY_FIRST, 9, 0) }, at(MAY_FIRST, 12, 0), false, &mut notices);
    assert!(notices.is_empty());
    assert!(stats.days().is_empty());
    let open = Lookback::Open { record: open_record("ProjA", at(MAY_FIRST, 10, 0), ""), row: 3 };
    stats.conclude(open, at(MAY_FIRST, 12, 0), false, &mut notices);
    assert_eq!(notices, vec![Diagnostic::AssumedEnd { row: 3 }]);
    assert_eq!(seconds(&stats, MAY_FIRST, "ProjA"), 2 * 3600);
    let marked = Lookback::Open { record: open_record("ProjB", at(MAY_FIRST, 10, 0), "TRUE"), row: 5 };
    stats.conclude(marked, at(MAY_FIRST, 12, 0), false, &mut notices);
    assert_eq!(notices, vec![Diagnostic::AssumedEnd { row: 3 }, Diagnostic::AssumedEnd { row: 5 }]);
    assert_eq!(seconds(&stats, MAY_FIRST, "ProjB"), 0);
}

#[test]
fn settling_goes_through_the_filter() {
    let mut stats = Statistics::new();
    let mut notices = Vec::new();
    let mut record = open_record("ProjA", at(MAY_FIRST, 9, 0), "no");
    record.end = Some(at(MAY_FIRST, 8, 0));
    stats.settle(&record, 0, false, &mut notices);
    assert!(notices.is_empty());
    assert_eq!(stats.max_project_len(), 0);
    stats.settle(&record, 0, true, &mut notices);
    assert_eq!(
        notices,
        vec![Diagnostic::NegativeDuration {
            row: 0,
            start: at(MAY_FIRST, 9, 0),
            end: at(MAY_FIRST, 8, 0),
            minutes: 60
        }]
    );
    assert_eq!(stats.max_project_len(), 5);
    assert!(stats.days().is_empty());
}
