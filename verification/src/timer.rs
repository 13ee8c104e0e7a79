//! The timer of the session in progress.

use crate::error::Error;
use crate::session::{RecordView, SessionRecord};
use crate::timestamp::{parsed, Timestamp, TimestampView};
use vstd::prelude::*;

verus! {

/// The persisted start of a session as the contracts see it.
pub enum StartView {
    /// The timestamp that the persisted text is.
    Legible(TimestampView),
    /// Persisted text that is no timestamp.
    Illegible(Seq<char>),
}

impl StartView {
    /// The persisted text.
    pub open spec fn text(self) -> Seq<char> {
        match self {
            StartView::Legible(stamp) => stamp.text,
            StartView::Illegible(text) => text,
        }
    }
}

/// What persisted `text` is as the start of a session.
pub open spec fn start_of(text: Seq<char>) -> StartView {
    match parsed(text) {
        Some(stamp) => StartView::Legible(stamp),
        None => StartView::Illegible(text),
    }
}

/// A session in progress as the contracts see it: the area it is spent in,
/// where that is known, and its start.
pub struct RunningView {
    pub area: Option<Seq<char>>,
    pub start: StartView,
}

/// What stopping a timer that holds `running` answers at `now`: the record of
/// the session, on the area that the session was started in, from its start
/// to `now`. There is none where no session is in progress, where its start
/// is illegible, where its area is not known, or where it would end before
/// it started.
pub open spec fn stop_outcome(running: Option<RunningView>, now: TimestampView) -> Result<
    RecordView,
    Error,
> {
    match running {
        None => Err(Error::NoActiveSession),
        Some(session) => match (session.start, session.area) {
            (StartView::Illegible(_), _) => Err(Error::Parse),
            (StartView::Legible(_), None) => Err(Error::NoCurrentArea),
            (StartView::Legible(start), Some(area)) => if now.instant < start.instant {
                Err(Error::EndBeforeStart)
            } else {
                Ok(RecordView { area, start, end: now })
            },
        },
    }
}

/// The persisted start of a session.
#[derive(Debug, PartialEq, Eq)]
pub enum Start {
    /// The timestamp that the persisted text is.
    Legible(Timestamp),
    /// Persisted text that is no timestamp. It is kept as it is.
    Illegible(String),
}

impl View for Start {
    type V = StartView;

    open spec fn view(&self) -> StartView {
        match self {
            Start::Legible(stamp) => StartView::Legible(stamp@),
            Start::Illegible(text) => StartView::Illegible(text@),
        }
    }
}

/// A session in progress: the area that was current when it started, and its
/// start. The area is not known only where a start was persisted and no
/// current area beside it.
#[derive(Debug, PartialEq, Eq)]
pub struct Running {
    pub area: Option<String>,
    pub start: Start,
}

impl View for Running {
    type V = RunningView;

    open spec fn view(&self) -> RunningView {
        RunningView {
            area: match self.area {
                Some(name) => Some(name@),
                None => None,
            },
            start: self.start@,
        }
    }
}

/// The session in progress, if one is in progress.
#[derive(Debug, PartialEq, Eq)]
pub struct SessionTimer {
    running: Option<Running>,
}

impl View for SessionTimer {
    type V = Option<RunningView>;

    closed spec fn view(&self) -> Option<RunningView> {
        match self.running {
            Some(session) => Some(session@),
            None => None,
        }
    }
}

impl SessionTimer {
    /// The timer of no session.
    pub fn idle() -> (timer: SessionTimer)
        ensures
            timer@ is None,
    {
        SessionTimer { running: None }
    }

    /// The timer that holds `running`.
    pub fn holding(running: Option<Running>) -> (timer: SessionTimer)
        ensures
            timer@ == match running {
                Some(session) => Some(session@),
                None => None,
            },
    {
        SessionTimer { running }
    }

    /// The timer as persisted. Only the start is persisted: the text is read,
    /// and kept as it is where it is no timestamp. The session counts for
    /// `area`, the area that is persisted as the current one.
    pub fn load(persisted: Option<String>, area: Option<&str>) -> (timer: SessionTimer)
        ensures
            timer@ == match persisted {
                Some(text) => Some(
                    RunningView {
                        area: match area {
                            Some(name) => Some(name@),
                            None => None,
                        },
                        start: start_of(text@),
                    },
                ),
                None => None,
            },
    {
        match persisted {
            Some(text) => {
                let area = match area {
                    Some(name) => Some(name.to_owned()),
                    None => None,
                };
                let start = match Timestamp::parse(text.as_str()) {
                    Ok(stamp) => Start::Legible(stamp),
                    Err(_) => Start::Illegible(text),
                };
                SessionTimer { running: Some(Running { area, start }) }
            },
            None => SessionTimer { running: None },
        }
    }

    /// What the timer holds, if a session is in progress.
    pub fn held(&self) -> (held: Option<&Running>)
        ensures
            match held {
                Some(session) => self@ == Some(session@),
                None => self@ is None,
            },
    {
        self.running.as_ref()
    }

    /// The text to persist, if a session is in progress.
    pub fn started(&self) -> (started: Option<&str>)
        ensures
            match started {
                Some(text) => self@ is Some && self@->0.start.text() == text@,
                None => self@ is None,
            },
    {
        match &self.running {
            Some(session) => match &session.start {
                Start::Legible(stamp) => Some(stamp.as_str()),
                Start::Illegible(text) => Some(text.as_str()),
            },
            None => None,
        }
    }

    /// Whether a session is in progress.
    pub fn is_running(&self) -> (running: bool)
        ensures
            running == (self@ is Some),
    {
        self.running.is_some()
    }

    /// Starts a session in `area` at `now`, unless one is in progress.
    pub fn start(&mut self, area: &str, now: &Timestamp) -> (result: Result<(), Error>)
        ensures
            match result {
                Ok(()) => {
                    &&& old(self)@ is None
                    &&& final(self)@ == Some(
                        RunningView { area: Some(area@), start: StartView::Legible(now@) },
                    )
                },
                Err(error) => {
                    &&& error == Error::SessionAlreadyActive
                    &&& old(self)@ is Some
                    &&& final(self)@ == old(self)@
                },
            },
    {
        if self.running.is_some() {
            Err(Error::SessionAlreadyActive)
        } else {
            self.restart(area, now);
            Ok(())
        }
    }

    /// Starts a session in `area` at `now` in place of whatever was in
    /// progress.
    pub fn restart(&mut self, area: &str, now: &Timestamp)
        ensures
            final(self)@ == Some(
                RunningView { area: Some(area@), start: StartView::Legible(now@) },
            ),
    {
        self.running = Some(
            Running { area: Some(area.to_owned()), start: Start::Legible(now.clone()) },
        );
    }

    /// Stops the session in progress at `now` and hands out its record, on
    /// the area that the session was started in. The timer is cleared exactly
    /// when a record is handed out.
    pub fn stop(&mut self, now: Timestamp) -> (result: Result<SessionRecord, Error>)
        ensures
            match stop_outcome(old(self)@, now@) {
                Ok(record) => {
                    &&& result is Ok
                    &&& result->Ok_0@ == record
                    &&& record.wf()
                    &&& final(self)@ is None
                },
                Err(error) => {
                    &&& result == Err::<SessionRecord, Error>(error)
                    &&& final(self)@ == old(self)@
                },
            },
    {
        let outcome = match &self.running {
            None => Err(Error::NoActiveSession),
            Some(session) => match (&session.start, &session.area) {
                (Start::Illegible(_), _) => Err(Error::Parse),
                (Start::Legible(_), None) => Err(Error::NoCurrentArea),
                (Start::Legible(start), Some(area)) => SessionRecord::new(
                    area.as_str(),
                    start.clone(),
                    now,
                ),
            },
        };
        if outcome.is_ok() {
            self.running = None;
        }
        outcome
    }
}

} // verus!
