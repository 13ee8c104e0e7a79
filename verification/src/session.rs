//! Completed sessions.

use crate::error::Error;
use crate::timestamp::{seconds_between, Timestamp, TimestampView, NANOS_PER_SECOND};
use vstd::prelude::*;

verus! {

/// A completed session as the contracts see it.
pub struct RecordView {
    pub area: Seq<char>,
    pub start: TimestampView,
    pub end: TimestampView,
}

impl RecordView {
    /// Both timestamps are well formed and the session does not end before
    /// it starts.
    pub open spec fn wf(self) -> bool {
        &&& self.start.wf()
        &&& self.end.wf()
        &&& self.start.instant <= self.end.instant
    }

    /// The length of the session in whole seconds.
    pub open spec fn seconds(self) -> int {
        seconds_between(self.start.instant, self.end.instant)
    }
}

/// A completed session: the area it was spent in, when it started and when it
/// ended. It never ends before it starts and cannot be changed once made.
#[derive(Debug, PartialEq, Eq)]
pub struct SessionRecord {
    area: String,
    start: Timestamp,
    end: Timestamp,
}

impl View for SessionRecord {
    type V = RecordView;

    closed spec fn view(&self) -> RecordView {
        RecordView { area: self.area@, start: self.start@, end: self.end@ }
    }
}

impl SessionRecord {
    /// What holds of every record: it does not end before it starts.
    #[verifier::type_invariant]
    pub closed spec fn inv(self) -> bool {
        &&& self.start.inv()
        &&& self.end.inv()
        &&& self.start@.instant <= self.end@.instant
    }

    /// Every record is well formed.
    pub proof fn lemma_wf(self)
        requires
            self.inv(),
        ensures
            self@.wf(),
    {
        self.start.lemma_wf();
        self.end.lemma_wf();
    }

    /// Makes the record of a session in `area` from `start` to `end`, unless it
    /// would end before it starts.
    pub fn new(area: &str, start: Timestamp, end: Timestamp) -> (result: Result<
        SessionRecord,
        Error,
    >)
        ensures
            match result {
                Ok(record) => {
                    &&& start@.instant <= end@.instant
                    &&& record@ == (RecordView { area: area@, start: start@, end: end@ })
                    &&& record@.wf()
                },
                Err(error) => error == Error::EndBeforeStart && end@.instant < start@.instant,
            },
    {
        proof {
            use_type_invariant(&start);
            use_type_invariant(&end);
            start.lemma_wf();
            end.lemma_wf();
        }
        if start.is_at_or_before(&end) {
            Ok(SessionRecord { area: area.to_owned(), start, end })
        } else {
            Err(Error::EndBeforeStart)
        }
    }

    /// The area the session was spent in.
    pub fn area(&self) -> (area: &str)
        ensures
            area@ == self@.area,
    {
        self.area.as_str()
    }

    /// When the session started.
    pub fn start(&self) -> (start: &Timestamp)
        ensures
            start@ == self@.start,
            self@.wf(),
    {
        proof {
            use_type_invariant(self);
            self.lemma_wf();
        }
        &self.start
    }

    /// When the session ended.
    pub fn end(&self) -> (end: &Timestamp)
        ensures
            end@ == self@.end,
            self@.wf(),
    {
        proof {
            use_type_invariant(self);
            self.lemma_wf();
        }
        &self.end
    }

    /// The length of the session in whole seconds. A fraction of a second is
    /// dropped.
    pub fn duration_seconds(&self) -> (seconds: u64)
        ensures
            seconds == self@.seconds(),
            self@.wf(),
    {
        proof {
            use_type_invariant(self);
            self.lemma_wf();
        }
        let span: i128 = self.end.instant() - self.start.instant();
        (span / NANOS_PER_SECOND) as u64
    }
}

impl Clone for SessionRecord {
    fn clone(&self) -> (copy: SessionRecord)
        ensures
            copy@ == self@,
    {
        proof {
            use_type_invariant(self);
        }
        let start = self.start.clone();
        let end = self.end.clone();
        proof {
            use_type_invariant(&start);
            use_type_invariant(&end);
        }
        SessionRecord { area: self.area.clone(), start, end }
    }
}

} // verus!
