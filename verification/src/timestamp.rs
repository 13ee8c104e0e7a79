//! Timestamps as they are persisted: RFC 3339 text, kept together with the
//! instant that was read from it.

use crate::error::Error;
use vstd::prelude::*;

verus! {

/// Instants further than this many seconds from the Unix epoch are refused.
pub const MAX_EPOCH_SECONDS: i64 = 1_000_000_000_000_000;

/// One more than the largest sub-second part, which runs past a full second
/// only while a leap second is being counted.
pub const NANOS_LIMIT: u32 = 2_000_000_000;

/// The nanoseconds in a second.
pub const NANOS_PER_SECOND: i128 = 1_000_000_000;

/// No supported instant is further than this many nanoseconds from the Unix
/// epoch.
pub const MAX_INSTANT: i128 = 1_000_000_000_000_002_000_000_000;

/// What `chrono::DateTime::parse_from_rfc3339` reads from `text`: `None` where
/// it reports an error, else the seconds since the Unix epoch (`timestamp`) and
/// the nanoseconds past that second (`timestamp_subsec_nanos`) of the date and
/// time it returns.
pub uninterp spec fn rfc3339_instant(text: Seq<char>) -> Option<(i64, u32)>;

/// Calls `chrono::DateTime::parse_from_rfc3339` on `text` and, of the date and
/// time it returns, `timestamp` and `timestamp_subsec_nanos`. The contract only
/// gives that outcome its name, `rfc3339_instant`.
#[verifier::external_body]
fn read_rfc3339(text: &str) -> (reading: Option<(i64, u32)>)
    ensures
        reading == rfc3339_instant(text@),
{
    match chrono::DateTime::parse_from_rfc3339(text) {
        Ok(moment) => Some((moment.timestamp(), moment.timestamp_subsec_nanos())),
        Err(_) => None,
    }
}

/// A timestamp as the contracts see it: the text, and the instant in
/// nanoseconds since the Unix epoch.
pub struct TimestampView {
    pub text: Seq<char>,
    pub instant: int,
}

impl TimestampView {
    /// The instant is within the supported range.
    pub open spec fn wf(self) -> bool {
        -MAX_INSTANT <= self.instant <= MAX_INSTANT
    }
}

/// Whether a second and the nanoseconds past it are within the supported
/// range.
pub open spec fn supported(seconds: i64, nanos: u32) -> bool {
    -MAX_EPOCH_SECONDS <= seconds <= MAX_EPOCH_SECONDS && nanos < NANOS_LIMIT
}

/// The instant of a second and the nanoseconds past it. A leap second shares
/// its instants with the second after it.
pub open spec fn instant_at(seconds: i64, nanos: u32) -> int {
    seconds * NANOS_PER_SECOND + nanos
}

/// The timestamp that `text` is, once it was read as `reading`: none where
/// nothing was read or where what was read is out of range.
pub open spec fn stamp_of(text: Seq<char>, reading: Option<(i64, u32)>) -> Option<TimestampView> {
    match reading {
        Some((seconds, nanos)) => if supported(seconds, nanos) {
            Some(TimestampView { text, instant: instant_at(seconds, nanos) })
        } else {
            None
        },
        None => None,
    }
}

/// The timestamp that `text` is, if it is one: an RFC 3339 date and time
/// within the supported range.
pub open spec fn parsed(text: Seq<char>) -> Option<TimestampView> {
    stamp_of(text, rfc3339_instant(text))
}

/// The whole seconds from one instant to another.
pub open spec fn seconds_between(start: int, end: int) -> int {
    (end - start) / (NANOS_PER_SECOND as int)
}

/// A text with the instant that was read from it.
#[derive(Debug, PartialEq, Eq)]
pub struct Timestamp {
    text: String,
    instant: i128,
}

impl View for Timestamp {
    type V = TimestampView;

    closed spec fn view(&self) -> TimestampView {
        TimestampView { text: self.text@, instant: self.instant as int }
    }
}

impl Timestamp {
    /// What holds of every timestamp: its instant is within the supported
    /// range.
    #[verifier::type_invariant]
    pub closed spec fn inv(self) -> bool {
        -MAX_INSTANT <= self.instant <= MAX_INSTANT
    }

    /// Every timestamp is well formed.
    pub proof fn lemma_wf(self)
        requires
            self.inv(),
        ensures
            self@.wf(),
    {
    }

    /// The timestamp that `text` is, once it was read as `reading`. Nothing
    /// is asked of how the two belong together: that is up to the caller.
    pub fn from_reading(text: &str, reading: Option<(i64, u32)>) -> (result: Result<
        Timestamp,
        Error,
    >)
        ensures
            match stamp_of(text@, reading) {
                Some(stamp) => result is Ok && result->Ok_0@ == stamp && stamp.wf(),
                None => result == Err::<Timestamp, Error>(Error::Parse),
            },
    {
        match reading {
            Some((seconds, nanos)) => {
                if -MAX_EPOCH_SECONDS <= seconds && seconds <= MAX_EPOCH_SECONDS && nanos
                    < NANOS_LIMIT {
                    let instant: i128 = (seconds as i128) * NANOS_PER_SECOND + (nanos as i128);
                    Ok(Timestamp { text: text.to_owned(), instant })
                } else {
                    Err(Error::Parse)
                }
            },
            None => Err(Error::Parse),
        }
    }

    /// Reads `text`, which is kept as written. It is accepted exactly when it
    /// is an RFC 3339 date and time within the supported range.
    pub fn parse(text: &str) -> (result: Result<Timestamp, Error>)
        ensures
            match parsed(text@) {
                Some(stamp) => result is Ok && result->Ok_0@ == stamp && stamp.wf(),
                None => result == Err::<Timestamp, Error>(Error::Parse),
            },
    {
        Timestamp::from_reading(text, read_rfc3339(text))
    }

    /// The text.
    pub fn as_str(&self) -> (text: &str)
        ensures
            text@ == self@.text,
    {
        self.text.as_str()
    }

    /// Nanoseconds since the Unix epoch.
    pub fn instant(&self) -> (nanos: i128)
        ensures
            nanos == self@.instant,
            self@.wf(),
    {
        proof {
            use_type_invariant(self);
        }
        self.instant
    }

    /// Whether this instant is not later than that of `other`.
    pub fn is_at_or_before(&self, other: &Timestamp) -> (answer: bool)
        ensures
            answer == (self@.instant <= other@.instant),
    {
        self.instant <= other.instant
    }
}

impl Clone for Timestamp {
    fn clone(&self) -> (copy: Timestamp)
        ensures
            copy@ == self@,
    {
        proof {
            use_type_invariant(self);
        }
        Timestamp { text: self.text.clone(), instant: self.instant }
    }
}

} // verus!
