use iceland::session::SessionRecord;
use iceland::stats::{history, hours_minutes, totals_by_area, AreaTotal};
use iceland::timestamp::Timestamp;

fn record(area: &str, start: &str, end: &str) -> SessionRecord {
    SessionRecord::new(area, Timestamp::parse(start).unwrap(), Timestamp::parse(end).unwrap())
        .unwrap()
}

fn three_sessions() -> Vec<SessionRecord> {
    vec![
        record("work", "2024-01-01T08:00:00Z", "2024-01-01T08:01:00Z"),
        record("math", "2024-01-01T08:01:00Z", "2024-01-01T09:01:00Z"),
        record("work", "2024-01-01T09:01:00Z", "2024-01-01T09:02:00Z"),
    ]
}

fn total(area: &str, seconds: u128) -> AreaTotal {
    AreaTotal { area: area.to_string(), seconds }
}

#[test]
fn totals_by_area_adds_up_each_area() {
    let totals = totals_by_area(&three_sessions());
    assert_eq!(totals, vec![total("work", 120), total("math", 3600)]);
}

#[test]
fn totals_of_an_empty_ledger_are_empty() {
    assert_eq!(totals_by_area(&Vec::new()), Vec::new());
}

#[test]
fn totals_list_areas_in_the_order_of_first_appearance() {
    let records = vec![
        record("c", "2024-01-01T08:00:00Z", "2024-01-01T08:00:01Z"),
        record("a", "2024-01-01T08:00:01Z", "2024-01-01T08:00:03Z"),
        record("c", "2024-01-01T08:00:03Z", "2024-01-01T08:00:06Z"),
        record("b", "2024-01-01T08:00:06Z", "2024-01-01T08:00:10Z"),
        record("a", "2024-01-01T08:00:10Z", "2024-01-01T08:00:15Z"),
    ];
    assert_eq!(totals_by_area(&records), vec![total("c", 4), total("a", 7), total("b", 4)]);
}

#[test]
fn totals_add_up_to_all_durations() {
    let records = three_sessions();
    let sum: u128 = totals_by_area(&records).iter().map(|total| total.seconds).sum();
    let all: u128 = records.iter().map(|record| record.duration_seconds() as u128).sum();
    assert_eq!(sum, all);
    assert_eq!(sum, 3720);
}

#[test]
fn history_without_filter_is_the_ledger() {
    assert_eq!(history(&three_sessions(), None), three_sessions());
}

#[test]
fn history_of_one_area_keeps_ledger_order() {
    let shown = history(&three_sessions(), Some("work"));
    assert_eq!(
        shown,
        vec![
            record("work", "2024-01-01T08:00:00Z", "2024-01-01T08:01:00Z"),
            record("work", "2024-01-01T09:01:00Z", "2024-01-01T09:02:00Z"),
        ]
    );
    assert_eq!(history(&three_sessions(), Some("gaming")), Vec::new());
}

#[test]
fn hours_minutes_never_rounds_up() {
    assert_eq!(hours_minutes(0), (0, 0));
    assert_eq!(hours_minutes(59), (0, 0));
    assert_eq!(hours_minutes(60), (0, 1));
    assert_eq!(hours_minutes(3599), (0, 59));
    assert_eq!(hours_minutes(3600), (1, 0));
    assert_eq!(hours_minutes(7325), (2, 2));
    assert_eq!(hours_minutes(360_000), (100, 0));
}
