use vstd::prelude::*;

verus! {

/// A record that cannot be turned into an entry.
#[derive(Debug, Clone, PartialEq, Eq)]
pub enum ParseError {
    /// The record's `PRIORITY=` field is not one of the numeric strings
    /// `"0"` through `"7"`; the offending value is kept for reporting.
    InvalidPriority(String),
}

impl ParseError {
    /// A human-readable description of the failure.
    pub fn message(&self) -> (r: String)
        ensures
            self matches ParseError::InvalidPriority(v) ==> r@ == "invalid priority "@ + v@,
    {
        match self {
            ParseError::InvalidPriority(v) => "invalid priority ".to_owned().concat(v.as_str()),
        }
    }
}

/// A terminal failure of the tailing worker. Parse failures are not terminal:
/// the worker counts and skips malformed records instead of dropping the
/// stream, and a disconnected channel is an ordinary shutdown.
#[derive(Debug, Clone, PartialEq, Eq)]
pub enum Error {
    /// The log source failed while being opened, read or waited on; the
    /// message describes the failure.
    Source(String),
}

impl Error {
    /// A human-readable description of the failure.
    pub fn message(&self) -> (r: String)
        ensures
            self matches Error::Source(m) ==> r@ == "log source: "@ + m@,
    {
        match self {
            Error::Source(m) => "log source: ".to_owned().concat(m.as_str()),
        }
    }
}

} // verus!
