//! The failures that the tracker reports.

use vstd::prelude::*;

verus! {

/// Why an operation was refused. No operation that returns one of these has
/// changed any state.
#[derive(Clone, Copy, Debug, PartialEq, Eq, Structural)]
pub enum Error {
    /// The persisted configuration does not describe a valid set of areas.
    ConfigCorrupt,
    /// No area is current, or the area of the session in progress is not
    /// known.
    NoCurrentArea,
    /// The named area is not known, or has no backing directory.
    AreaNotFound,
    /// An area of that name is already configured.
    AreaAlreadyExists,
    /// There is no running session to stop.
    NoActiveSession,
    /// A session is already running.
    SessionAlreadyActive,
    /// A timestamp or a ledger row is malformed.
    Parse,
    /// A session would end before it started.
    EndBeforeStart,
    /// Text could not be produced for the persisted state.
    Io,
}

impl Error {
    /// The text of [`Error::message`].
    pub open spec fn message_text(self) -> Seq<char> {
        match self {
            Error::ConfigCorrupt => "The configuration is corrupt."@,
            Error::NoCurrentArea => "No current area set"@,
            Error::AreaNotFound => "Area does not exist. Use `add-area` first."@,
            Error::AreaAlreadyExists => "Area already exists."@,
            Error::NoActiveSession => "No active session. Use `start` first."@,
            Error::SessionAlreadyActive => "Session already started. Use `stop` first."@,
            Error::Parse => "Invalid time format"@,
            Error::EndBeforeStart => "The session would end before it started."@,
            Error::Io => "The session could not be written."@,
        }
    }

    /// A sentence for the user.
    pub fn message(&self) -> (text: String)
        ensures
            text@ == self.message_text(),
    {
        match self {
            Error::ConfigCorrupt => "The configuration is corrupt.".to_owned(),
            Error::NoCurrentArea => "No current area set".to_owned(),
            Error::AreaNotFound => "Area does not exist. Use `add-area` first.".to_owned(),
            Error::AreaAlreadyExists => "Area already exists.".to_owned(),
            Error::NoActiveSession => "No active session. Use `start` first.".to_owned(),
            Error::SessionAlreadyActive => "Session already started. Use `stop` first.".to_owned(),
            Error::Parse => "Invalid time format".to_owned(),
            Error::EndBeforeStart => "The session would end before it started.".to_owned(),
            Error::Io => "The session could not be written.".to_owned(),
        }
    }
}

} // verus!
