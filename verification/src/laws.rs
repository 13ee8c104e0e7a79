//! What holds of the tracker whatever state it is in.

use crate::config::{lemma_without_keeps_distinct, without};
use crate::error::Error;
use crate::session::RecordView;
use crate::timer::{RunningView, StartView};
use crate::timestamp::TimestampView;
use crate::tracker::{Removal, TrackerView};
use vstd::prelude::*;

verus! {

/// A session that was stopped does not end before it starts. Its length is
/// the difference of its two instants in whole seconds, and is not negative.
/// It is booked at the end of the ledger, on the area that the timer holds,
/// from the persisted start to `now`.
pub proof fn lemma_stopped_session_is_ordered(before: TrackerView, now: TimestampView)
    ensures
        match before.stop(now) {
            Ok(record) => {
                &&& record.end == now
                &&& before.timer == Some(
                    RunningView {
                        area: Some(record.area),
                        start: StartView::Legible(record.start),
                    },
                )
                &&& record.start.instant <= record.end.instant
                &&& record.seconds() == (record.end.instant - record.start.instant)
                    / 1_000_000_000
                &&& record.seconds() >= 0
                &&& before.after_stop(now).ledger == before.ledger.push(record)
                &&& before.after_stop(now).timer is None
            },
            Err(_) => before.after_stop(now) == before,
        },
{
}

/// Starting while a session is in progress is refused for that reason,
/// whether or not an area is current. No session is booked and the session
/// in progress stays what it was.
pub proof fn lemma_start_while_running(before: TrackerView, now: TimestampView)
    requires
        before.timer is Some,
    ensures
        before.start(now) == Err::<(), Error>(Error::SessionAlreadyActive),
        before.after_start(now) == before,
        before.after_start(now).ledger == before.ledger,
        before.after_start(now).timer == before.timer,
{
}

/// Starting is refused as already active exactly when a session is in
/// progress. Otherwise it takes a current area, and the session that starts
/// is one of that area from `now`.
pub proof fn lemma_start_answers(before: TrackerView, now: TimestampView)
    ensures
        before.start(now) == Err::<(), Error>(Error::SessionAlreadyActive) <==> before.timer
            is Some,
        before.start(now) == Err::<(), Error>(Error::NoCurrentArea) <==> before.timer is None
            && before.current is None,
        before.start(now) is Ok ==> before.after_start(now) == (TrackerView {
            timer: Some(RunningView { area: before.current, start: StartView::Legible(now) }),
            ..before
        }),
        before.start(now) is Err ==> before.after_start(now) == before,
{
}

/// A session is booked on the area that was current when it started, not on
/// the area that is current when it stops: between the two the area may have
/// been removed, so that another area or none is current.
pub proof fn lemma_session_keeps_its_area(
    before: TrackerView,
    from: Seq<char>,
    at: TimestampView,
    name: Seq<char>,
    confirmed: bool,
    now: TimestampView,
)
    requires
        before.current == Some(from),
        before.timer is None,
        at.instant <= now.instant,
    ensures
        before.start(at) is Ok,
        before.after_start(at).stop(now) == Ok::<RecordView, Error>(
            RecordView { area: from, start: at, end: now },
        ),
        before.after_start(at).after_remove(name, confirmed).stop(now) == Ok::<
            RecordView,
            Error,
        >(RecordView { area: from, start: at, end: now }),
        before.after_start(at).after_add(name).stop(now) == Ok::<RecordView, Error>(
            RecordView { area: from, start: at, end: now },
        ),
{
}

/// Stopping while no session is in progress is refused for that reason, and
/// the ledger stays what it was.
pub proof fn lemma_stop_while_idle(before: TrackerView, now: TimestampView)
    requires
        before.timer is None,
    ensures
        before.stop(now) == Err::<RecordView, Error>(Error::NoActiveSession),
        before.after_stop(now) == before,
        before.after_stop(now).ledger == before.ledger,
{
}

/// Switching to `to` while a session runs in `from` books exactly one
/// session, that of `from` from its start to `now`, and leaves a session
/// running for `to` that started at `now`. The session in progress has to
/// have a legible start that is not later than `now`: a session that would
/// end before it starts is not booked.
pub proof fn lemma_switch_books_the_old_area(
    before: TrackerView,
    from: Seq<char>,
    start: TimestampView,
    to: Seq<char>,
    now: TimestampView,
)
    requires
        before.timer == Some(
            RunningView { area: Some(from), start: StartView::Legible(start) },
        ),
        start.instant <= now.instant,
        before.config.areas.contains(to),
    ensures
        before.switch_to(to, true, now) is Ok,
        before.switch_to(to, true, now)->Ok_0.closed == Some(
            RecordView { area: from, start, end: now },
        ),
        before.switch_to(to, true, now)->Ok_0.warning is None,
        before.after_switch(to, true, now).ledger == before.ledger.push(
            RecordView { area: from, start, end: now },
        ),
        before.after_switch(to, true, now).timer == Some(
            RunningView { area: Some(to), start: StartView::Legible(now) },
        ),
        before.after_switch(to, true, now).current == Some(to),
        before.after_switch(to, true, now).config == before.config,
{
}

/// A switch that is carried out always ends with a session running for the
/// new area from `now`, whether or not a session could be closed, and books
/// one session at most.
pub proof fn lemma_switch_always_lands(
    before: TrackerView,
    to: Seq<char>,
    has_directory: bool,
    now: TimestampView,
)
    ensures
        match before.switch_to(to, has_directory, now) {
            Ok(report) => {
                &&& before.config.areas.contains(to) && has_directory
                &&& before.after_switch(to, has_directory, now).current == Some(to)
                &&& before.after_switch(to, has_directory, now).timer == Some(
                    RunningView { area: Some(to), start: StartView::Legible(now) },
                )
                &&& before.after_switch(to, has_directory, now).ledger == match report.closed {
                    Some(record) => before.ledger.push(record),
                    None => before.ledger,
                }
                &&& !(report.closed is Some && report.warning is Some)
                &&& before.timer is None ==> report.closed is None && report.warning is None
            },
            Err(error) => {
                &&& error == Error::AreaNotFound
                &&& !(before.config.areas.contains(to) && has_directory)
                &&& before.after_switch(to, has_directory, now) == before
            },
        },
{
}

/// Removing the current area makes the first of the remaining areas current,
/// or none where none remains, and leaves the ledger as it was.
pub proof fn lemma_remove_current_area(before: TrackerView, name: Seq<char>)
    requires
        before.current == Some(name),
        before.config.areas.contains(name),
    ensures
        before.remove_area(name, true) is Ok,
        before.after_remove(name, true).config.areas == without(before.config.areas, name),
        before.after_remove(name, true).current == if without(before.config.areas, name).len()
            > 0 {
            Some(without(before.config.areas, name)[0])
        } else {
            None
        },
        before.after_remove(name, true).ledger == before.ledger,
        before.after_remove(name, true).timer == before.timer,
{
}

/// A removal that is declined, or that names an unknown area, changes
/// nothing.
pub proof fn lemma_remove_needs_consent(before: TrackerView, name: Seq<char>)
    ensures
        before.after_remove(name, false) == before,
        !before.config.areas.contains(name) ==> before.remove_area(name, true) == Err::<
            Removal,
            Error,
        >(Error::AreaNotFound) && before.after_remove(name, true) == before,
{
}

/// The ledger only grows: whatever is asked of the tracker, the sessions
/// that were booked stay, in their places.
pub proof fn lemma_ledger_only_grows(
    before: TrackerView,
    name: Seq<char>,
    flag: bool,
    now: TimestampView,
)
    ensures
        before.ledger.is_prefix_of(before.after_start(now).ledger),
        before.ledger.is_prefix_of(before.after_stop(now).ledger),
        before.ledger.is_prefix_of(before.after_switch(name, flag, now).ledger),
        before.ledger.is_prefix_of(before.after_add(name).ledger),
        before.ledger.is_prefix_of(before.after_remove(name, flag).ledger),
{
}

/// A consistent tracker stays consistent: the current area stays a configured
/// one, no area comes to be listed twice, and no session that ends before it
/// starts comes into the ledger.
pub proof fn lemma_consistency_is_kept(
    before: TrackerView,
    name: Seq<char>,
    flag: bool,
    now: TimestampView,
)
    requires
        before.consistent(),
        now.wf(),
    ensures
        before.after_start(now).consistent(),
        before.after_stop(now).consistent(),
        before.after_switch(name, flag, now).consistent(),
        before.after_add(name).consistent(),
        before.after_remove(name, flag).consistent(),
{
    let stopped = before.after_stop(now);
    assert(stopped.consistent()) by {
        assert forall|i: int| 0 <= i < stopped.ledger.len() implies (#[trigger] stopped.ledger[i]).wf() by {
            if i < before.ledger.len() {
                assert(before.ledger[i].wf());
            }
        }
    }
    let switched = before.after_switch(name, flag, now);
    assert(switched.consistent()) by {
        if before.switch_to(name, flag, now) is Ok {
            assert(switched.ledger == stopped.ledger);
        }
    }
    let added = before.after_add(name);
    assert(added.consistent()) by {
        if before.add_area(name) is Ok {
            let areas = before.config.areas;
            assert forall|a: int, b: int|
                0 <= a < areas.len() + 1 && 0 <= b < areas.len() + 1 && a != b implies areas.push(
                name,
            )[a] != areas.push(name)[b] by {
                if a < areas.len() && b < areas.len() {
                } else if a < areas.len() {
                    assert(areas.contains(areas[a]));
                } else {
                    assert(areas.contains(areas[b]));
                }
            }
            match before.current {
                Some(area) => {
                    let k = choose|k: int| 0 <= k < areas.len() && areas[k] == area;
                    assert(areas.push(name)[k] == area);
                },
                None => {},
            }
        }
    }
    let removed = before.after_remove(name, flag);
    assert(removed.consistent()) by {
        lemma_without_keeps_distinct(before.config.areas, name);
        let rest = without(before.config.areas, name);
        match before.remove_area(name, flag) {
            Ok(Removal::Removed) => {
                match before.current {
                    Some(area) => {
                        assert(rest.contains(area));
                    },
                    None => {},
                }
            },
            Ok(Removal::Reassigned) => {
                assert(rest.contains(rest[0]));
            },
            _ => {},
        }
    }
}

} // verus!
