//! The error taxonomy of a conversion run. Every error aborts the run:
//! there is no retry and no partial-row recovery. Unrecognized format or
//! policy names are not errors — they fall back to a default silently.

use vstd::prelude::*;

verus! {

/// Why a conversion run failed.
#[derive(Debug)]
pub enum ConvertError {
    /// The output could not be encoded or written.
    Io(String),
    /// The input could not be parsed as a table.
    Parse(String),
    /// The split command is malformed: its column number is not positive
    /// or its separator is empty.
    InvalidCommand(String),
}

impl ConvertError {
    /// The human-readable message the error carries.
    pub open spec fn spec_message(&self) -> Seq<char> {
        match self {
            ConvertError::Io(m) => m@,
            ConvertError::Parse(m) => m@,
            ConvertError::InvalidCommand(m) => m@,
        }
    }

    /// The human-readable message the error carries.
    pub fn message(&self) -> (r: &String)
        ensures
            r@ == self.spec_message(),
    {
        match self {
            ConvertError::Io(m) => m,
            ConvertError::Parse(m) => m,
            ConvertError::InvalidCommand(m) => m,
        }
    }
}

} // verus!
