use yado_notch::calendar::chrono_next_minus;
use yado_notch::stats::{activity_streak, done_columns, new_task, task_from_row, task_query, TaskQuery};

#[test]
fn previous_day_within_month() {
    assert_eq!(chrono_next_minus("2024-05-17"), "2024-05-16");
}

#[test]
fn previous_day_crosses_month() {
    assert_eq!(chrono_next_minus("2024-05-01"), "2024-04-30");
    assert_eq!(chrono_next_minus("2023-08-01"), "2023-07-31");
}

#[test]
fn previous_day_leap_february() {
    assert_eq!(chrono_next_minus("2024-03-01"), "2024-02-29");
    assert_eq!(chrono_next_minus("2023-03-01"), "2023-02-28");
    assert_eq!(chrono_next_minus("2000-03-01"), "2000-02-29");
    assert_eq!(chrono_next_minus("1900-03-01"), "1900-02-28");
}

#[test]
fn previous_day_crosses_year() {
    assert_eq!(chrono_next_minus("2025-01-01"), "2024-12-31");
}

#[test]
fn previous_day_before_year_zero() {
    assert_eq!(chrono_next_minus("0000-01-01"), "-001-12-31");
}

#[test]
fn previous_day_of_malformed_text_is_empty() {
    assert_eq!(chrono_next_minus(""), "");
    assert_eq!(chrono_next_minus("2024-05"), "");
    assert_eq!(chrono_next_minus("2024-05-01-07"), "");
}

#[test]
fn previous_day_skips_unparsable_pieces() {
    // "x" does not parse and is dropped; three numbers remain.
    assert_eq!(chrono_next_minus("2024-x-05-10"), "2024-05-09");
    // A leading '+' is accepted by the integer parser.
    assert_eq!(chrono_next_minus("+2024-05-10"), "2024-05-09");
    // Unpadded numbers are padded on output.
    assert_eq!(chrono_next_minus("7-3-9"), "0007-03-08");
}

#[test]
fn previous_day_of_month_zero() {
    // Day 1 of month 0: month -1 is no month, 30 days are used.
    assert_eq!(chrono_next_minus("2024-00-01"), "2024--1-30");
}

fn days(v: &[&str]) -> Vec<String> {
    v.iter().map(|s| s.to_string()).collect()
}

#[test]
fn streak_counts_back_from_today() {
    let d = days(&["2024-03-02", "2024-03-01", "2024-02-29", "2024-02-27"]);
    let s = activity_streak(&d, &"2024-03-02".to_string(), &"2024-03-01".to_string());
    assert_eq!(s, 3);
}

#[test]
fn streak_counts_back_from_yesterday() {
    let d = days(&["2024-03-01", "2024-02-29", "2024-02-28"]);
    let s = activity_streak(&d, &"2024-03-02".to_string(), &"2024-03-01".to_string());
    assert_eq!(s, 3);
}

#[test]
fn streak_is_zero_when_last_activity_is_older() {
    let d = days(&["2024-02-28", "2024-02-27"]);
    let s = activity_streak(&d, &"2024-03-02".to_string(), &"2024-03-01".to_string());
    assert_eq!(s, 0);
    assert_eq!(activity_streak(&Vec::new(), &"2024-03-02".to_string(), &"2024-03-01".to_string()), 0);
}

#[test]
fn streak_crosses_year_boundary() {
    let d = days(&["2025-01-02", "2025-01-01", "2024-12-31", "2024-12-30", "2024-12-28"]);
    let s = activity_streak(&d, &"2025-01-02".to_string(), &"2025-01-01".to_string());
    assert_eq!(s, 4);
}

#[test]
fn task_from_row_reads_done_flag() {
    let t = task_from_row(3, "Write".to_string(), None, Some("2024-05-01".to_string()), Some(25), 2, 100);
    assert!(t.done);
    assert_eq!(t.id, 3);
    let t = task_from_row(4, "Read".to_string(), Some("n".to_string()), None, None, 0, 7);
    assert!(!t.done);
    assert_eq!(t.notes.as_deref(), Some("n"));
}

#[test]
fn new_task_is_open() {
    let t = new_task(9, "Plan", Some("notes"), None, Some(30), 1234);
    assert_eq!(t.id, 9);
    assert_eq!(t.title, "Plan");
    assert_eq!(t.notes.as_deref(), Some("notes"));
    assert_eq!(t.due_date, None);
    assert_eq!(t.duration_min, Some(30));
    assert!(!t.done);
    assert_eq!(t.created_ts, 1234);
}

#[test]
fn task_query_follows_filter() {
    assert_eq!(task_query("day", Some("2024-05-01")), TaskQuery::Day("2024-05-01".to_string()));
    assert_eq!(task_query("day", None), TaskQuery::Open);
    assert_eq!(task_query("unscheduled", Some("2024-05-01")), TaskQuery::Unscheduled);
    assert_eq!(task_query("recent", None), TaskQuery::Recent);
    assert_eq!(task_query("open", None), TaskQuery::Open);
    assert_eq!(task_query("anything", None), TaskQuery::Open);
}

#[test]
fn done_columns_store_time_only_when_done() {
    assert_eq!(done_columns(true, 55), (1, Some(55)));
    assert_eq!(done_columns(false, 55), (0, None));
}

#[test]
fn streak_on_texts_that_are_not_dates() {
    // "foo" has no previous day (the empty text), which is not active.
    let d = days(&["foo"]);
    assert_eq!(activity_streak(&d, &"foo".to_string(), &"bar".to_string()), 1);
    // The empty text is its own previous day: the walk cycles through the
    // active days, and the count stops at their number.
    let d = days(&["foo", ""]);
    assert_eq!(activity_streak(&d, &"foo".to_string(), &"bar".to_string()), 2);
}
