//! The ways in which loading a configuration fails.

use vstd::prelude::*;

verus! {

/// Why a configuration could not be loaded. Each kind carries the
/// diagnostic that is shown to the user.
#[derive(Debug, Clone, PartialEq, Eq)]
pub enum Error {
    /// The file could not be read.
    Io(String),
    /// The text is not a document of the expected form.
    Parse(String),
    /// The document was read, but breaks a rule of the configuration.
    Validation(String),
}

impl Error {
    /// The diagnostic of this error.
    pub open spec fn diagnostic(self) -> Seq<char> {
        match self {
            Error::Io(text) => text@,
            Error::Parse(text) => text@,
            Error::Validation(text) => text@,
        }
    }

    /// The diagnostic of this error.
    pub fn message(&self) -> (text: &str)
        ensures
            text@ == self.diagnostic(),
    {
        match self {
            Error::Io(text) => text.as_str(),
            Error::Parse(text) => text.as_str(),
            Error::Validation(text) => text.as_str(),
        }
    }
}

} // verus!
