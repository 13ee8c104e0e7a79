//! The tracker: configuration, current area, timer and ledger, changed
//! together so that every session is booked on the area it was spent in.

use crate::config::{default_areas, names_of, without, Config, ConfigView};
use crate::error::Error;
use crate::ledger::{all_wf, csv_rows, sessions_in, SessionLedger};
use crate::pointer::{trimmed, CurrentAreaPointer};
use crate::session::{RecordView, SessionRecord};
use crate::timer::{start_of, stop_outcome, RunningView, SessionTimer, Start, StartView};
use crate::timestamp::{Timestamp, TimestampView};
use vstd::prelude::*;

verus! {

/// How the removal of an area ended.
#[derive(Clone, Copy, Debug, PartialEq, Eq, Structural)]
pub enum Removal {
    /// The removal was not confirmed. Nothing has changed.
    Declined,
    /// The area is gone. It was not the current area.
    Removed,
    /// The area is gone, and the first of the remaining areas is current now.
    Reassigned,
    /// The last area is gone, and none is current now.
    Cleared,
}

/// What a tracker shows of its state.
#[derive(Clone, Copy, Debug, PartialEq, Eq, Structural)]
pub enum Status {
    /// No area is current.
    NoCurrentArea,
    /// An area is current and no session is in progress.
    Paused,
    /// An area is current and a session is in progress.
    Running,
}

/// What a switch did about the session that was in progress, as the
/// contracts see it.
pub struct SwitchView {
    pub closed: Option<RecordView>,
    pub warning: Option<Error>,
}

/// A tracker as the contracts see it.
pub struct TrackerView {
    pub config: ConfigView,
    pub current: Option<Seq<char>>,
    pub timer: Option<RunningView>,
    pub ledger: Seq<RecordView>,
}

impl TrackerView {
    /// The configuration lists no area twice, the current area is one of the
    /// configured areas, the start of the session in progress is within the
    /// supported range where it is legible, and no session in the ledger ends
    /// before it starts.
    pub open spec fn consistent(self) -> bool {
        &&& self.config.wf()
        &&& match self.current {
            Some(area) => self.config.areas.contains(area),
            None => true,
        }
        &&& match self.timer {
            Some(session) => match session.start {
                StartView::Legible(start) => start.wf(),
                StartView::Illegible(_) => true,
            },
            None => true,
        }
        &&& all_wf(self.ledger)
    }

    /// The tracker of a fresh installation: the default configuration with its
    /// first area current, no session in progress and none completed.
    pub open spec fn initial() -> TrackerView {
        TrackerView {
            config: ConfigView::initial(),
            current: Some(default_areas()[0]),
            timer: None,
            ledger: Seq::empty(),
        }
    }

    /// What starting a session at `now` answers: it is refused while a
    /// session is in progress, and it takes a current area.
    pub open spec fn start(self, now: TimestampView) -> Result<(), Error> {
        if self.timer is Some {
            Err(Error::SessionAlreadyActive)
        } else if self.current is None {
            Err(Error::NoCurrentArea)
        } else {
            Ok(())
        }
    }

    /// The tracker after a session was to start at `now`: the session is in
    /// progress for the current area.
    pub open spec fn after_start(self, now: TimestampView) -> TrackerView {
        match self.start(now) {
            Ok(()) => TrackerView {
                timer: Some(RunningView { area: self.current, start: StartView::Legible(now) }),
                ..self
            },
            Err(_) => self,
        }
    }

    /// What stopping the session in progress at `now` answers: the record of
    /// the session. It is on the area that was current when the session
    /// started, whatever area is current now, runs from the persisted start
    /// to `now`, and does not end before it starts.
    pub open spec fn stop(self, now: TimestampView) -> Result<RecordView, Error> {
        stop_outcome(self.timer, now)
    }

    /// The tracker after the session in progress was to stop at `now`: with
    /// the record booked and the timer cleared, or unchanged.
    pub open spec fn after_stop(self, now: TimestampView) -> TrackerView {
        match self.stop(now) {
            Ok(record) => TrackerView { timer: None, ledger: self.ledger.push(record), ..self },
            Err(_) => self,
        }
    }

    /// What a switch at `now` did about the session in progress: nothing
    /// where there was none, else its record or the reason why it could not
    /// be closed.
    pub open spec fn closing(self, now: TimestampView) -> SwitchView {
        match self.stop(now) {
            Ok(record) => SwitchView { closed: Some(record), warning: None },
            Err(error) => SwitchView {
                closed: None,
                warning: if self.timer is Some {
                    Some(error)
                } else {
                    None
                },
            },
        }
    }

    /// What switching to `area` at `now` answers. The area has to be
    /// configured and to have its directory.
    pub open spec fn switch_to(self, area: Seq<char>, has_directory: bool, now: TimestampView) -> Result<
        SwitchView,
        Error,
    > {
        if !(self.config.areas.contains(area) && has_directory) {
            Err(Error::AreaNotFound)
        } else {
            Ok(self.closing(now))
        }
    }

    /// The tracker after a switch to `area` was asked for at `now`. The
    /// session in progress is closed on the area that was current, then a
    /// session starts at `now` and `area` becomes current. A session that
    /// cannot be closed does not hold up the switch.
    pub open spec fn after_switch(
        self,
        area: Seq<char>,
        has_directory: bool,
        now: TimestampView,
    ) -> TrackerView {
        match self.switch_to(area, has_directory, now) {
            Ok(_) => TrackerView {
                current: Some(area),
                timer: Some(RunningView { area: Some(area), start: StartView::Legible(now) }),
                ..self.after_stop(now)
            },
            Err(_) => self,
        }
    }

    /// What adding the area `name` answers.
    pub open spec fn add_area(self, name: Seq<char>) -> Result<(), Error> {
        if self.config.areas.contains(name) {
            Err(Error::AreaAlreadyExists)
        } else {
            Ok(())
        }
    }

    /// The tracker after the area `name` was to be added.
    pub open spec fn after_add(self, name: Seq<char>) -> TrackerView {
        match self.add_area(name) {
            Ok(()) => TrackerView {
                config: ConfigView { areas: self.config.areas.push(name), ..self.config },
                ..self
            },
            Err(_) => self,
        }
    }

    /// What removing the area `name` answers. It takes a confirmation.
    pub open spec fn remove_area(self, name: Seq<char>, confirmed: bool) -> Result<Removal, Error> {
        if !self.config.areas.contains(name) {
            Err(Error::AreaNotFound)
        } else if !confirmed {
            Ok(Removal::Declined)
        } else if self.current != Some(name) {
            Ok(Removal::Removed)
        } else if without(self.config.areas, name).len() > 0 {
            Ok(Removal::Reassigned)
        } else {
            Ok(Removal::Cleared)
        }
    }

    /// The tracker after the area `name` was to be removed. Where the area
    /// was current, the first of the remaining areas is current, or none
    /// where none remains. The ledger is as it was.
    pub open spec fn after_remove(self, name: Seq<char>, confirmed: bool) -> TrackerView {
        let areas = without(self.config.areas, name);
        let config = ConfigView { areas, ..self.config };
        match self.remove_area(name, confirmed) {
            Ok(Removal::Removed) => TrackerView { config, ..self },
            Ok(Removal::Reassigned) => TrackerView { config, current: Some(areas[0]), ..self },
            Ok(Removal::Cleared) => TrackerView { config, current: None, ..self },
            Ok(Removal::Declined) | Err(_) => self,
        }
    }

    /// What the tracker shows of its state.
    pub open spec fn status(self) -> Status {
        if self.current is None {
            Status::NoCurrentArea
        } else if self.timer is Some {
            Status::Running
        } else {
            Status::Paused
        }
    }
}

/// What a switch did about the session that was in progress.
#[derive(Debug, PartialEq, Eq)]
pub struct SwitchReport {
    /// The record of the session that the switch closed.
    pub closed: Option<SessionRecord>,
    /// Why the session in progress could not be closed.
    pub warning: Option<Error>,
}

impl View for SwitchReport {
    type V = SwitchView;

    open spec fn view(&self) -> SwitchView {
        SwitchView {
            closed: match self.closed {
                Some(record) => Some(record@),
                None => None,
            },
            warning: self.warning,
        }
    }
}

/// The four pieces of persisted state.
#[derive(Debug, PartialEq, Eq)]
pub struct Tracker {
    pub config: Config,
    pub pointer: CurrentAreaPointer,
    pub timer: SessionTimer,
    pub ledger: SessionLedger,
}

impl View for Tracker {
    type V = TrackerView;

    open spec fn view(&self) -> TrackerView {
        TrackerView {
            config: self.config@,
            current: self.pointer@,
            timer: self.timer@,
            ledger: self.ledger@,
        }
    }
}

/// Whether one can switch to `area`: it is configured and `has_directory`
/// says that its directory is there.
pub fn area_exists(config: &Config, area: &str, has_directory: bool) -> (exists: bool)
    ensures
        exists == (config@.areas.contains(area@) && has_directory),
{
    config.contains(area) && has_directory
}

/// Stops the session in progress at `now` and books it in the ledger, on the
/// area that was current when the session started.
pub fn stop_session(tracker: &mut Tracker, now: Timestamp) -> (result: Result<SessionRecord, Error>)
    ensures
        match old(tracker)@.stop(now@) {
            Ok(record) => result is Ok && result->Ok_0@ == record && record.wf(),
            Err(error) => result == Err::<SessionRecord, Error>(error),
        },
        final(tracker)@ == old(tracker)@.after_stop(now@),
{
    tracker.stop(now)
}

/// The tracker that persisted state stands for. Each piece may be missing: a
/// missing configuration is the default one, a missing pointer names no
/// area, a missing timer means that no session is in progress, and a missing
/// ledger holds no session. The pointer is read without the white space
/// around it. The timer is read as a timestamp and kept as it is where it is
/// none; its session counts for the area that the pointer names, since no
/// area is persisted beside the start. The ledger gives the sessions that its
/// rows stand for.
pub open spec fn persisted(
    config: Option<(Seq<Seq<char>>, Seq<char>)>,
    pointer: Option<Seq<char>>,
    timer: Option<Seq<char>>,
    ledger: Option<Seq<char>>,
) -> TrackerView {
    TrackerView {
        config: match config {
            Some((areas, browser_command)) => ConfigView { areas, browser_command },
            None => ConfigView::initial(),
        },
        current: match pointer {
            Some(text) => Some(trimmed(text)),
            None => None,
        },
        timer: match timer {
            Some(text) => Some(
                RunningView {
                    area: match pointer {
                        Some(name) => Some(trimmed(name)),
                        None => None,
                    },
                    start: start_of(text),
                },
            ),
            None => None,
        },
        ledger: match ledger {
            Some(text) => sessions_in(csv_rows(text)),
            None => Seq::empty(),
        },
    }
}

impl Tracker {
    /// The tracker that the persisted state stands for. A configuration that
    /// lists an area twice is refused.
    pub fn load(
        config: Option<(Vec<String>, String)>,
        pointer: Option<&str>,
        timer: Option<String>,
        ledger: Option<&str>,
    ) -> (result: Result<Tracker, Error>)
        ensures
            match result {
                Ok(tracker) => {
                    &&& config matches Some((areas, _)) ==> names_of(areas@).no_duplicates()
                    &&& tracker@ == persisted(
                        match config {
                            Some((areas, browser_command)) => Some(
                                (names_of(areas@), browser_command@),
                            ),
                            None => None,
                        },
                        match pointer {
                            Some(text) => Some(text@),
                            None => None,
                        },
                        match timer {
                            Some(text) => Some(text@),
                            None => None,
                        },
                        match ledger {
                            Some(text) => Some(text@),
                            None => None,
                        },
                    )
                },
                Err(error) => {
                    &&& error == Error::ConfigCorrupt
                    &&& config matches Some((areas, _)) && !names_of(areas@).no_duplicates()
                },
            },
    {
        let config = match Config::load(config) {
            Ok(config) => config,
            Err(error) => {
                return Err(error);
            },
        };
        let ledger = match ledger {
            Some(text) => SessionLedger::load_all(text),
            None => SessionLedger::new(),
        };
        let pointer = CurrentAreaPointer::load(pointer);
        let timer = match pointer.read() {
            Some(area) => SessionTimer::load(timer, Some(area.as_str())),
            None => SessionTimer::load(timer, None),
        };
        Ok(Tracker { config, pointer, timer, ledger })
    }

    /// The tracker of a fresh installation.
    pub fn init() -> (tracker: Tracker)
        ensures
            tracker@ == TrackerView::initial(),
    {
        let config = Config::default();
        let mut pointer = CurrentAreaPointer::cleared();
        assert(default_areas().len() == 6);
        match config.first() {
            Some(first) => {
                pointer.write(first.as_str());
            },
            None => {},
        }
        Tracker { config, pointer, timer: SessionTimer::idle(), ledger: SessionLedger::new() }
    }

    /// Whether the tracker is consistent. What can fail is the pointer: it
    /// is persisted apart from the configuration and may name an area that
    /// is not configured.
    pub fn is_consistent(&self) -> (answer: bool)
        ensures
            answer == self@.consistent(),
    {
        proof {
            use_type_invariant(&self.config);
            self.config.lemma_wf();
            use_type_invariant(&self.ledger);
            self.ledger.lemma_wf();
        }
        match self.timer.held() {
            Some(session) => match &session.start {
                Start::Legible(start) => {
                    proof {
                        use_type_invariant(start);
                        start.lemma_wf();
                    }
                },
                Start::Illegible(_) => {},
            },
            None => {},
        }
        match self.pointer.read() {
            Some(area) => self.config.contains(area.as_str()),
            None => true,
        }
    }

    /// What the tracker shows of its state.
    pub fn status(&self) -> (status: Status)
        ensures
            status == self@.status(),
    {
        if self.pointer.read().is_none() {
            Status::NoCurrentArea
        } else if self.timer.is_running() {
            Status::Running
        } else {
            Status::Paused
        }
    }

    /// Starts a session at `now` in the current area, unless a session is in
    /// progress. Nothing is booked: a session is booked when it is stopped.
    pub fn start(&mut self, now: &Timestamp) -> (result: Result<(), Error>)
        ensures
            result == old(self)@.start(now@),
            final(self)@ == old(self)@.after_start(now@),
    {
        if self.timer.is_running() {
            return Err(Error::SessionAlreadyActive);
        }
        match self.pointer.read() {
            Some(area) => match self.timer.start(area.as_str(), now) {
                Ok(()) => Ok(()),
                Err(error) => Err(error),
            },
            None => Err(Error::NoCurrentArea),
        }
    }

    /// Stops the session in progress at `now` and books it in the ledger, on
    /// the area that was current when the session started.
    pub fn stop(&mut self, now: Timestamp) -> (result: Result<SessionRecord, Error>)
        ensures
            match old(self)@.stop(now@) {
                Ok(record) => result is Ok && result->Ok_0@ == record && record.wf(),
                Err(error) => result == Err::<SessionRecord, Error>(error),
            },
            final(self)@ == old(self)@.after_stop(now@),
    {
        let record = match self.timer.stop(now) {
            Ok(record) => record,
            Err(error) => {
                return Err(error);
            },
        };
        self.ledger.append(record.clone());
        Ok(record)
    }

    /// Switches to `area` at `now`. `has_directory` says whether the area's
    /// directory is there.
    pub fn switch_to(&mut self, area: &str, has_directory: bool, now: Timestamp) -> (result: Result<
        SwitchReport,
        Error,
    >)
        ensures
            match old(self)@.switch_to(area@, has_directory, now@) {
                Ok(report) => result is Ok && result->Ok_0@ == report,
                Err(error) => result == Err::<SwitchReport, Error>(error),
            },
            final(self)@ == old(self)@.after_switch(area@, has_directory, now@),
    {
        if !area_exists(&self.config, area, has_directory) {
            return Err(Error::AreaNotFound);
        }
        let mut report = SwitchReport { closed: None, warning: None };
        if self.timer.is_running() {
            match self.stop(now.clone()) {
                Ok(record) => {
                    report.closed = Some(record);
                },
                Err(error) => {
                    report.warning = Some(error);
                },
            }
        }
        self.timer.restart(area, &now);
        self.pointer.write(area);
        Ok(report)
    }

    /// Adds the area `name` to the configuration.
    pub fn add_area(&mut self, name: &str) -> (result: Result<(), Error>)
        ensures
            result == old(self)@.add_area(name@),
            final(self)@ == old(self)@.after_add(name@),
    {
        match self.config.add_area(name) {
            Ok(()) => Ok(()),
            Err(error) => Err(error),
        }
    }

    /// Removes the area `name` from the configuration, if `confirmed`, and
    /// moves the pointer off it. The ledger keeps the sessions of the area.
    pub fn remove_area(&mut self, name: &str, confirmed: bool) -> (result: Result<Removal, Error>)
        ensures
            result == old(self)@.remove_area(name@, confirmed),
            final(self)@ == old(self)@.after_remove(name@, confirmed),
    {
        if !self.config.contains(name) {
            return Err(Error::AreaNotFound);
        }
        if !confirmed {
            return Ok(Removal::Declined);
        }
        let was_current = self.pointer.points_to(name);
        match self.config.remove_area(name) {
            Ok(()) => {},
            Err(error) => {
                return Err(error);
            },
        }
        if !was_current {
            return Ok(Removal::Removed);
        }
        match self.config.first() {
            Some(first) => {
                self.pointer.write(first.as_str());
                Ok(Removal::Reassigned)
            },
            None => {
                self.pointer.clear();
                Ok(Removal::Cleared)
            },
        }
    }
}

} // verus!
