//! The pointer to the current area.

use vstd::prelude::*;

verus! {

/// What `str::trim` leaves of a text: the text without the white space at its
/// two ends.
pub uninterp spec fn trimmed(text: Seq<char>) -> Seq<char>;

/// Calls `str::trim`. The contract only gives the slice it returns its name,
/// `trimmed`.
#[verifier::external_body]
fn trim(text: &str) -> (inner: &str)
    ensures
        inner@ == trimmed(text@),
{
    text.trim()
}

/// The area that is current, if any is.
#[derive(Debug, PartialEq, Eq)]
pub struct CurrentAreaPointer {
    area: Option<String>,
}

impl View for CurrentAreaPointer {
    type V = Option<Seq<char>>;

    closed spec fn view(&self) -> Option<Seq<char>> {
        match self.area {
            Some(name) => Some(name@),
            None => None,
        }
    }
}

impl CurrentAreaPointer {
    /// The pointer that names no area.
    pub fn cleared() -> (pointer: CurrentAreaPointer)
        ensures
            pointer@ is None,
    {
        CurrentAreaPointer { area: None }
    }

    /// The pointer as persisted: none where nothing is persisted, else the
    /// persisted text without the white space around it.
    pub fn load(persisted: Option<&str>) -> (pointer: CurrentAreaPointer)
        ensures
            pointer@ == match persisted {
                Some(text) => Some(trimmed(text@)),
                None => None,
            },
    {
        match persisted {
            Some(text) => CurrentAreaPointer { area: Some(trim(text).to_owned()) },
            None => CurrentAreaPointer { area: None },
        }
    }

    /// The current area.
    pub fn read(&self) -> (area: Option<&String>)
        ensures
            match area {
                Some(name) => self@ == Some(name@),
                None => self@ is None,
            },
    {
        self.area.as_ref()
    }

    /// Makes `area` the current area.
    pub fn write(&mut self, area: &str)
        ensures
            final(self)@ == Some(area@),
    {
        self.area = Some(area.to_owned());
    }

    /// Leaves no area current.
    pub fn clear(&mut self)
        ensures
            final(self)@ is None,
    {
        self.area = None;
    }

    /// Whether `area` is the current area.
    pub fn points_to(&self, area: &str) -> (answer: bool)
        ensures
            answer == (self@ == Some(area@)),
    {
        match &self.area {
            Some(name) => *name == area.to_owned(),
            None => false,
        }
    }
}

} // verus!
