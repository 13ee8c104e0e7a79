use iceland::error::Error;
use iceland::ledger::{append_text, SessionLedger};
use iceland::pointer::CurrentAreaPointer;
use iceland::session::SessionRecord;
use iceland::stats::totals_by_area;
use iceland::timer::{Running, SessionTimer, Start};
use iceland::timestamp::Timestamp;
use iceland::tracker::{area_exists, stop_session, Removal, Status, SwitchReport, Tracker};

fn at(text: &str) -> Timestamp {
    Timestamp::parse(text).unwrap()
}

fn record(area: &str, start: &str, end: &str) -> SessionRecord {
    SessionRecord::new(area, at(start), at(end)).unwrap()
}

fn names(list: &[&str]) -> Vec<String> {
    list.iter().map(|name| name.to_string()).collect()
}

const T0: &str = "2024-05-01T09:00:00+02:00";
const T1: &str = "2024-05-01T09:30:00+02:00";
const T2: &str = "2024-05-01T11:00:00+02:00";

#[test]
fn init_points_to_the_first_default_area() {
    let tracker = Tracker::init();
    assert_eq!(tracker.pointer.read(), Some(&"work".to_string()));
    assert!(!tracker.timer.is_running());
    assert_eq!(tracker.ledger.len(), 0);
    assert_eq!(tracker.status(), Status::Paused);
}

#[test]
fn end_to_end_from_init_to_stats() {
    let mut tracker = Tracker::init();
    assert_eq!(tracker.pointer.read(), Some(&"work".to_string()));
    assert_eq!(tracker.ledger.len(), 0);
    assert_eq!(tracker.timer.started(), None);

    assert_eq!(tracker.start(&at(T0)), Ok(()));
    assert_eq!(tracker.timer.started(), Some(T0));
    assert_eq!(tracker.ledger.len(), 0);
    assert_eq!(tracker.status(), Status::Running);

    let report = tracker.switch_to("math", true, at(T1)).unwrap();
    assert_eq!(report.closed, Some(record("work", T0, T1)));
    assert_eq!(report.warning, None);
    assert_eq!(tracker.ledger.len(), 1);
    assert_eq!(tracker.ledger.records()[0], record("work", T0, T1));
    assert_eq!(tracker.timer.started(), Some(T1));
    assert_eq!(tracker.pointer.read(), Some(&"math".to_string()));

    let closed = tracker.stop(at(T2)).unwrap();
    assert_eq!(closed, record("math", T1, T2));
    assert_eq!(tracker.ledger.len(), 2);
    assert_eq!(tracker.ledger.records()[1], record("math", T1, T2));
    assert_eq!(tracker.timer.started(), None);
    assert_eq!(tracker.status(), Status::Paused);

    let totals = totals_by_area(tracker.ledger.records());
    assert_eq!(totals.len(), 2);
    assert_eq!((totals[0].area.as_str(), totals[0].seconds), ("work", 1800));
    assert_eq!((totals[1].area.as_str(), totals[1].seconds), ("math", 5400));
    let sum: u128 = totals.iter().map(|total| total.seconds).sum();
    let durations: u128 =
        tracker.ledger.records().iter().map(|r| r.duration_seconds() as u128).sum();
    assert_eq!(sum, durations);
    assert_eq!(sum, 7200);
}

#[test]
fn start_while_running_changes_nothing() {
    let mut tracker = Tracker::init();
    tracker.start(&at(T0)).unwrap();
    assert_eq!(tracker.start(&at(T1)), Err(Error::SessionAlreadyActive));
    assert_eq!(tracker.timer.started(), Some(T0));
    assert_eq!(tracker.ledger.len(), 0);
}

#[test]
fn start_without_current_area_is_refused() {
    let mut tracker = Tracker::init();
    tracker.pointer.clear();
    assert_eq!(tracker.start(&at(T0)), Err(Error::NoCurrentArea));
    assert!(!tracker.timer.is_running());
    assert_eq!(tracker.status(), Status::NoCurrentArea);
}

#[test]
fn start_while_running_is_already_active_even_without_current_area() {
    let mut tracker = Tracker::init();
    tracker.start(&at(T0)).unwrap();
    tracker.pointer.clear();
    assert_eq!(tracker.start(&at(T1)), Err(Error::SessionAlreadyActive));
    assert_eq!(tracker.timer.started(), Some(T0));
    assert_eq!(tracker.pointer.read(), None);
    assert_eq!(tracker.ledger.len(), 0);
}

#[test]
fn stop_while_idle_reports_no_active_session() {
    let mut tracker = Tracker::init();
    tracker.ledger.append(record("work", T0, T1));
    assert_eq!(tracker.stop(at(T2)), Err(Error::NoActiveSession));
    assert_eq!(tracker.ledger.len(), 1);
    assert_eq!(tracker.ledger.records()[0], record("work", T0, T1));
    assert_eq!(stop_session(&mut tracker, at(T2)), Err(Error::NoActiveSession));
}

#[test]
fn stop_books_the_session_on_the_current_area() {
    let mut tracker = Tracker::init();
    tracker.start(&at(T0)).unwrap();
    let closed = stop_session(&mut tracker, at(T2)).unwrap();
    assert_eq!(closed, record("work", T0, T2));
    assert_eq!(closed.duration_seconds(), 7200);
    assert!(closed.start().is_at_or_before(closed.end()));
    assert_eq!(tracker.ledger.records(), &vec![record("work", T0, T2)]);
    assert!(!tracker.timer.is_running());
}

#[test]
fn stop_with_a_malformed_start_is_a_parse_error() {
    let mut tracker = Tracker::init();
    tracker.timer = SessionTimer::load(Some("half past nine".to_string()), Some("work"));
    assert_eq!(tracker.stop(at(T1)), Err(Error::Parse));
    assert_eq!(tracker.timer.started(), Some("half past nine"));
    assert_eq!(tracker.ledger.len(), 0);
}

#[test]
fn stop_books_the_session_on_the_area_it_started_in() {
    let mut tracker = Tracker::load(
        Some((names(&["work", "math"]), "firefox".to_string())),
        Some("work"),
        None,
        None,
    )
    .unwrap();
    tracker.start(&at(T0)).unwrap();
    assert_eq!(tracker.remove_area("work", true), Ok(Removal::Reassigned));
    assert_eq!(tracker.pointer.read(), Some(&"math".to_string()));
    assert!(tracker.timer.is_running());
    assert_eq!(tracker.stop(at(T1)), Ok(record("work", T0, T1)));
    assert_eq!(tracker.ledger.records(), &vec![record("work", T0, T1)]);
    assert!(!tracker.timer.is_running());
}

#[test]
fn stop_after_the_last_area_is_gone_still_closes_the_session() {
    let mut tracker =
        Tracker::load(Some((names(&["solo"]), String::new())), Some("solo"), None, None).unwrap();
    tracker.start(&at(T0)).unwrap();
    assert_eq!(tracker.remove_area("solo", true), Ok(Removal::Cleared));
    assert_eq!(tracker.pointer.read(), None);
    assert_eq!(tracker.stop(at(T1)), Ok(record("solo", T0, T1)));
    assert_eq!(tracker.ledger.len(), 1);
}

#[test]
fn stop_after_the_pointer_was_cleared_keeps_the_area_of_the_start() {
    let mut tracker = Tracker::init();
    tracker.start(&at(T0)).unwrap();
    tracker.pointer.clear();
    assert_eq!(tracker.stop(at(T1)), Ok(record("work", T0, T1)));
    assert!(!tracker.timer.is_running());
    assert_eq!(tracker.ledger.len(), 1);
}

#[test]
fn stop_of_a_persisted_start_without_persisted_area_is_refused() {
    let mut tracker = Tracker::load(None, None, Some(T0.to_string()), None).unwrap();
    assert_eq!(
        tracker.timer.held(),
        Some(&Running { area: None, start: Start::Legible(at(T0)) })
    );
    assert_eq!(tracker.stop(at(T1)), Err(Error::NoCurrentArea));
    assert!(tracker.timer.is_running());
    assert_eq!(tracker.ledger.len(), 0);
}

#[test]
fn stop_before_the_start_is_refused() {
    let mut tracker = Tracker::init();
    tracker.start(&at(T1)).unwrap();
    assert_eq!(tracker.stop(at(T0)), Err(Error::EndBeforeStart));
    assert_eq!(tracker.timer.started(), Some(T1));
    assert_eq!(tracker.ledger.len(), 0);
}

#[test]
fn switch_while_active_books_exactly_one_record() {
    let mut tracker = Tracker::init();
    tracker.ledger.append(record("gaming", "2024-04-30T20:00:00Z", "2024-04-30T21:00:00Z"));
    tracker.start(&at(T0)).unwrap();
    let report = tracker.switch_to("trading", true, at(T1)).unwrap();
    assert_eq!(
        report,
        SwitchReport { closed: Some(record("work", T0, T1)), warning: None }
    );
    assert_eq!(
        tracker.ledger.records(),
        &vec![
            record("gaming", "2024-04-30T20:00:00Z", "2024-04-30T21:00:00Z"),
            record("work", T0, T1)
        ]
    );
    assert_eq!(tracker.timer.started(), Some(T1));
    assert_eq!(tracker.pointer.read(), Some(&"trading".to_string()));
}

#[test]
fn switch_while_idle_books_nothing_and_starts_a_session() {
    let mut tracker = Tracker::init();
    let report = tracker.switch_to("math", true, at(T0)).unwrap();
    assert_eq!(report, SwitchReport { closed: None, warning: None });
    assert_eq!(tracker.ledger.len(), 0);
    assert_eq!(tracker.timer.started(), Some(T0));
    assert_eq!(tracker.pointer.read(), Some(&"math".to_string()));
}

#[test]
fn switch_to_an_unknown_area_changes_nothing() {
    let mut tracker = Tracker::init();
    tracker.start(&at(T0)).unwrap();
    assert_eq!(tracker.switch_to("music", true, at(T1)), Err(Error::AreaNotFound));
    assert_eq!(tracker.switch_to("math", false, at(T1)), Err(Error::AreaNotFound));
    assert_eq!(tracker.pointer.read(), Some(&"work".to_string()));
    assert_eq!(tracker.timer.started(), Some(T0));
    assert_eq!(tracker.ledger.len(), 0);
}

#[test]
fn switch_is_not_held_up_by_a_broken_session() {
    let mut tracker = Tracker::init();
    tracker.timer = SessionTimer::load(Some("garbage".to_string()), Some("work"));
    let report = tracker.switch_to("math", true, at(T1)).unwrap();
    assert_eq!(report, SwitchReport { closed: None, warning: Some(Error::Parse) });
    assert_eq!(tracker.ledger.len(), 0);
    assert_eq!(tracker.timer.started(), Some(T1));
    assert_eq!(tracker.pointer.read(), Some(&"math".to_string()));

    let mut skewed = Tracker::init();
    skewed.start(&at(T2)).unwrap();
    let report = skewed.switch_to("math", true, at(T1)).unwrap();
    assert_eq!(report, SwitchReport { closed: None, warning: Some(Error::EndBeforeStart) });
    assert_eq!(skewed.timer.started(), Some(T1));
}

#[test]
fn area_exists_takes_both_the_config_and_the_directory() {
    let tracker = Tracker::init();
    assert!(area_exists(&tracker.config, "math", true));
    assert!(!area_exists(&tracker.config, "math", false));
    assert!(!area_exists(&tracker.config, "music", true));
}

#[test]
fn add_area_through_the_tracker() {
    let mut tracker = Tracker::init();
    assert_eq!(tracker.add_area("music"), Ok(()));
    assert!(tracker.config.contains("music"));
    assert_eq!(tracker.add_area("music"), Err(Error::AreaAlreadyExists));
    assert_eq!(tracker.config.areas().len(), 7);
    assert_eq!(tracker.pointer.read(), Some(&"work".to_string()));
}

#[test]
fn removing_the_current_area_moves_the_pointer_to_the_new_first() {
    let mut tracker = Tracker::init();
    tracker.ledger.append(record("work", T0, T1));
    assert_eq!(tracker.remove_area("work", true), Ok(Removal::Reassigned));
    assert_eq!(tracker.pointer.read(), Some(&"math".to_string()));
    assert_eq!(
        tracker.config.areas(),
        &names(&["math", "learning", "gaming", "traveling", "trading"])
    );
    assert_eq!(tracker.ledger.records(), &vec![record("work", T0, T1)]);
}

#[test]
fn removing_the_last_area_clears_the_pointer() {
    let mut tracker = Tracker::load(
        Some((names(&["solo"]), "firefox".to_string())),
        Some("solo\n"),
        None,
        None,
    )
    .unwrap();
    assert_eq!(tracker.pointer.read(), Some(&"solo".to_string()));
    tracker.ledger.append(record("solo", T0, T1));
    assert_eq!(tracker.remove_area("solo", true), Ok(Removal::Cleared));
    assert_eq!(tracker.pointer.read(), None);
    assert!(tracker.config.areas().is_empty());
    assert_eq!(tracker.ledger.len(), 1);
}

#[test]
fn removing_another_area_leaves_the_pointer() {
    let mut tracker = Tracker::init();
    assert_eq!(tracker.remove_area("gaming", true), Ok(Removal::Removed));
    assert_eq!(tracker.pointer.read(), Some(&"work".to_string()));
    assert!(!tracker.config.contains("gaming"));
}

#[test]
fn removal_needs_confirmation_and_a_known_area() {
    let mut tracker = Tracker::init();
    assert_eq!(tracker.remove_area("work", false), Ok(Removal::Declined));
    assert_eq!(tracker, Tracker::init());
    assert_eq!(tracker.remove_area("music", true), Err(Error::AreaNotFound));
    assert_eq!(tracker.remove_area("music", false), Err(Error::AreaNotFound));
    assert_eq!(tracker, Tracker::init());
}

#[test]
fn load_reads_every_piece_of_persisted_state() {
    let first = record("work", T0, T1);
    let text = append_text(None, &first).unwrap();
    let tracker = Tracker::load(
        Some((names(&["work", "math"]), "firefox -P {area}".to_string())),
        Some("  math \n"),
        Some(T1.to_string()),
        Some(&text),
    )
    .unwrap();
    assert_eq!(tracker.config.areas(), &names(&["work", "math"]));
    assert_eq!(tracker.pointer.read(), Some(&"math".to_string()));
    assert_eq!(tracker.timer.started(), Some(T1));
    assert_eq!(
        tracker.timer.held(),
        Some(&Running { area: Some("math".to_string()), start: Start::Legible(at(T1)) })
    );
    assert_eq!(tracker.ledger.records(), &vec![first]);
}

#[test]
fn load_of_nothing_is_the_default_config_without_pointer() {
    let tracker = Tracker::load(None, None, None, None).unwrap();
    assert_eq!(tracker.config.areas().len(), 6);
    assert_eq!(tracker.pointer.read(), None);
    assert!(!tracker.timer.is_running());
    assert_eq!(tracker.ledger.len(), 0);
    assert_eq!(tracker.status(), Status::NoCurrentArea);
}

#[test]
fn load_refuses_a_corrupt_config() {
    let result = Tracker::load(Some((names(&["a", "a"]), String::new())), None, None, None);
    assert_eq!(result, Err(Error::ConfigCorrupt));
}

#[test]
fn pointer_is_read_without_surrounding_white_space() {
    assert_eq!(CurrentAreaPointer::load(Some(" work\n")).read(), Some(&"work".to_string()));
    assert_eq!(CurrentAreaPointer::load(Some("deep work")).read(), Some(&"deep work".to_string()));
    assert_eq!(CurrentAreaPointer::load(Some("\t\n")).read(), Some(&String::new()));
    assert_eq!(CurrentAreaPointer::load(None).read(), None);
    assert_eq!(CurrentAreaPointer::cleared().read(), None);
}

#[test]
fn tracker_is_consistent_while_its_pointer_names_a_configured_area() {
    let mut tracker = Tracker::init();
    assert!(tracker.is_consistent());
    tracker.switch_to("math", true, at(T0)).unwrap();
    tracker.remove_area("math", true).unwrap();
    assert!(tracker.is_consistent());
    tracker.pointer.write("music");
    assert!(!tracker.is_consistent());
    tracker.pointer.clear();
    assert!(tracker.is_consistent());
}

#[test]
fn pointer_write_and_clear() {
    let mut pointer = CurrentAreaPointer::cleared();
    pointer.write("math");
    assert!(pointer.points_to("math"));
    assert!(!pointer.points_to("work"));
    pointer.clear();
    assert!(!pointer.points_to("math"));
    assert_eq!(pointer.read(), None);
}

#[test]
fn timer_start_stop_and_restart() {
    let mut timer = SessionTimer::idle();
    assert_eq!(timer.stop(at(T1)), Err(Error::NoActiveSession));
    assert_eq!(timer.start("work", &at(T0)), Ok(()));
    assert_eq!(timer.start("math", &at(T1)), Err(Error::SessionAlreadyActive));
    assert_eq!(timer.started(), Some(T0));
    timer.restart("math", &at(T1));
    assert_eq!(timer.started(), Some(T1));
    assert_eq!(timer.stop(at(T0)), Err(Error::EndBeforeStart));
    assert!(timer.is_running());
    assert_eq!(timer.stop(at(T2)), Ok(record("math", T1, T2)));
    assert!(!timer.is_running());
}

#[test]
fn timer_keeps_persisted_text_that_is_no_timestamp() {
    let timer = SessionTimer::load(Some("soon".to_string()), Some("work"));
    assert!(timer.is_running());
    let held = Running { area: Some("work".to_string()), start: Start::Illegible("soon".to_string()) };
    assert_eq!(timer.held(), Some(&held));
    assert_eq!(timer.started(), Some("soon"));
    assert_eq!(timer, SessionTimer::holding(Some(held)));
    let mut timer = timer;
    assert_eq!(timer.stop(at(T1)), Err(Error::Parse));
    assert_eq!(timer.started(), Some("soon"));
    assert_eq!(SessionTimer::load(None, Some("work")), SessionTimer::idle());
    assert_eq!(
        SessionTimer::load(Some(T0.to_string()), None).held(),
        Some(&Running { area: None, start: Start::Legible(at(T0)) })
    );
}

#[test]
fn ledger_append_keeps_what_is_there() {
    let mut ledger = SessionLedger::new();
    ledger.append(record("work", T0, T1));
    ledger.append(record("math", T1, T2));
    assert_eq!(ledger.len(), 2);
    assert_eq!(ledger.records(), &vec![record("work", T0, T1), record("math", T1, T2)]);
}
