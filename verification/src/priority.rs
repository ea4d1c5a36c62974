use vstd::prelude::*;
use crate::error::ParseError;

verus! {

/// Syslog-style severity of a log record, ordered from `Emergency` (highest)
/// down to `Debug` (lowest).
#[derive(Debug, Clone, Copy, PartialEq, Eq, Structural)]
pub enum Priority {
    Emergency,
    Alert,
    Critical,
    Error,
    Warning,
    Notice,
    Info,
    Debug,
}

/// The priority encoded by a record's numeric `PRIORITY=` string: `"0"` is
/// `Emergency` through `"7"` for `Debug`; anything else encodes none.
pub open spec fn priority_of(s: Seq<char>) -> Option<Priority> {
    if s == "0"@ {
        Some(Priority::Emergency)
    } else if s == "1"@ {
        Some(Priority::Alert)
    } else if s == "2"@ {
        Some(Priority::Critical)
    } else if s == "3"@ {
        Some(Priority::Error)
    } else if s == "4"@ {
        Some(Priority::Warning)
    } else if s == "5"@ {
        Some(Priority::Notice)
    } else if s == "6"@ {
        Some(Priority::Info)
    } else if s == "7"@ {
        Some(Priority::Debug)
    } else {
        None
    }
}

impl Priority {
    /// Parse a numeric priority string. Only `"0"` through `"7"` are
    /// accepted; any other value is rejected as invalid, never coerced to a
    /// default.
    pub fn parse(value: &str) -> (r: Result<Priority, ParseError>)
        ensures
            r matches Ok(p) ==> priority_of(value@) == Some(p),
            r matches Err(e) ==> priority_of(value@) is None && (e matches
                ParseError::InvalidPriority(v) && v@ == value@),
    {
        let v: String = value.to_owned();
        if v == "0".to_owned() {
            Ok(Priority::Emergency)
        } else if v == "1".to_owned() {
            Ok(Priority::Alert)
        } else if v == "2".to_owned() {
            Ok(Priority::Critical)
        } else if v == "3".to_owned() {
            Ok(Priority::Error)
        } else if v == "4".to_owned() {
            Ok(Priority::Warning)
        } else if v == "5".to_owned() {
            Ok(Priority::Notice)
        } else if v == "6".to_owned() {
            Ok(Priority::Info)
        } else if v == "7".to_owned() {
            Ok(Priority::Debug)
        } else {
            Err(ParseError::InvalidPriority(v))
        }
    }

    /// The full name of the level, as shown in expanded contexts.
    pub fn long_name(&self) -> (r: &'static str)
        ensures
            r@ == match self {
                Priority::Emergency => "emergency"@,
                Priority::Alert => "alert"@,
                Priority::Critical => "critical"@,
                Priority::Error => "error"@,
                Priority::Warning => "warning"@,
                Priority::Notice => "notice"@,
                Priority::Info => "info"@,
                Priority::Debug => "debug"@,
            },
    {
        match self {
            Priority::Emergency => "emergency",
            Priority::Alert => "alert",
            Priority::Critical => "critical",
            Priority::Error => "error",
            Priority::Warning => "warning",
            Priority::Notice => "notice",
            Priority::Info => "info",
            Priority::Debug => "debug",
        }
    }

    /// The abbreviated syslog-style name of the level.
    pub fn short_name(&self) -> (r: &'static str)
        ensures
            r@ == match self {
                Priority::Emergency => "emerg"@,
                Priority::Alert => "alert"@,
                Priority::Critical => "crit"@,
                Priority::Error => "err"@,
                Priority::Warning => "warning"@,
                Priority::Notice => "notice"@,
                Priority::Info => "info"@,
                Priority::Debug => "debug"@,
            },
    {
        match self {
            Priority::Emergency => "emerg",
            Priority::Alert => "alert",
            Priority::Critical => "crit",
            Priority::Error => "err",
            Priority::Warning => "warning",
            Priority::Notice => "notice",
            Priority::Info => "info",
            Priority::Debug => "debug",
        }
    }
}

impl Default for Priority {
    /// The level a record carries when its source named none.
    fn default() -> (r: Self)
        ensures
            r == Priority::Info,
    {
        Priority::Info
    }
}

} // verus!
