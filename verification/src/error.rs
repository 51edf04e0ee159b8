//! The errors a repository answers with.

use vstd::prelude::*;

verus! {

/// Why a call was refused or could not complete.
#[derive(Debug)]
pub enum Error {
    /// The caller asked for something this crate refuses.
    Validation(String),
    /// Stored data does not read back as what it should be.
    Integrity(String),
    /// A concurrent change or an earlier decision stands in the way.
    Conflict(String),
    /// The system underneath failed.
    Io(String),
}

/// The kind of an error, as the contracts name it.
#[derive(Debug)]
pub enum ErrorKind {
    /// [`Error::Validation`].
    Validation,
    /// [`Error::Integrity`].
    Integrity,
    /// [`Error::Conflict`].
    Conflict,
    /// [`Error::Io`].
    Io,
}

impl Error {
    /// The kind of this error.
    pub open spec fn kind(&self) -> ErrorKind {
        match self {
            Error::Validation(_) => ErrorKind::Validation,
            Error::Integrity(_) => ErrorKind::Integrity,
            Error::Conflict(_) => ErrorKind::Conflict,
            Error::Io(_) => ErrorKind::Io,
        }
    }

    /// The message, whichever the kind.
    pub fn message(&self) -> (m: &str)
        ensures
            m@ == match self {
                Error::Validation(s) => s@,
                Error::Integrity(s) => s@,
                Error::Conflict(s) => s@,
                Error::Io(s) => s@,
            },
    {
        match self {
            Error::Validation(s) => s.as_str(),
            Error::Integrity(s) => s.as_str(),
            Error::Conflict(s) => s.as_str(),
            Error::Io(s) => s.as_str(),
        }
    }
}

} // verus!
