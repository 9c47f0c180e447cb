//! Log severity levels.
use crate::error::{app_error, AppError};
use crate::text::{concat2, str_eq};
use vstd::prelude::*;

verus! {

/// Severity of a log message, ordered from most to least verbose.
#[derive(Clone, Copy, Debug, Eq, PartialEq, Structural)]
pub enum LogLevel {
    Debug,
    Info,
    Warning,
    Error,
    Critical,
}

/// The name of a level as the `--log-level` option spells it.
pub open spec fn level_name(l: LogLevel) -> Seq<char> {
    match l {
        LogLevel::Debug => "DEBUG"@,
        LogLevel::Info => "INFO"@,
        LogLevel::Warning => "WARNING"@,
        LogLevel::Error => "ERROR"@,
        LogLevel::Critical => "CRITICAL"@,
    }
}

/// The level a `--log-level` value names, if any.
pub open spec fn level_named(s: Seq<char>) -> Option<LogLevel> {
    if s == "DEBUG"@ {
        Some(LogLevel::Debug)
    } else if s == "INFO"@ {
        Some(LogLevel::Info)
    } else if s == "WARNING"@ {
        Some(LogLevel::Warning)
    } else if s == "ERROR"@ {
        Some(LogLevel::Error)
    } else if s == "CRITICAL"@ {
        Some(LogLevel::Critical)
    } else {
        None
    }
}

/// The numeric severity of a level.
pub open spec fn level_rank(l: LogLevel) -> nat {
    match l {
        LogLevel::Debug => 0,
        LogLevel::Info => 1,
        LogLevel::Warning => 2,
        LogLevel::Error => 3,
        LogLevel::Critical => 4,
    }
}

/// The name a level is spelled with names that level.
pub proof fn law_log_level_name_round_trips(l: LogLevel)
    ensures
        level_named(level_name(l)) == Some(l),
{
    reveal_strlit("DEBUG");
    reveal_strlit("INFO");
    reveal_strlit("WARNING");
    reveal_strlit("ERROR");
    reveal_strlit("CRITICAL");
    assert("DEBUG"@ != "INFO"@ && "DEBUG"@ != "WARNING"@ && "DEBUG"@ != "ERROR"@ && "DEBUG"@ != "CRITICAL"@) by {
        assert("DEBUG"@[0] != "INFO"@[0] && "DEBUG"@[0] != "WARNING"@[0] && "DEBUG"@[0] != "ERROR"@[0]
            && "DEBUG"@[0] != "CRITICAL"@[0]);
    }
    assert("INFO"@ != "WARNING"@ && "INFO"@ != "ERROR"@ && "INFO"@ != "CRITICAL"@) by {
        assert("INFO"@[0] != "WARNING"@[0] && "INFO"@[0] != "ERROR"@[0] && "INFO"@[0] != "CRITICAL"@[0]);
    }
    assert("WARNING"@ != "ERROR"@ && "WARNING"@ != "CRITICAL"@) by {
        assert("WARNING"@[0] != "ERROR"@[0] && "WARNING"@[0] != "CRITICAL"@[0]);
    }
    assert("ERROR"@ != "CRITICAL"@) by {
        assert("ERROR"@[0] != "CRITICAL"@[0]);
    }
}

impl LogLevel {
    /// Parse a `--log-level` value: `DEBUG`, `INFO`, `WARNING`, `ERROR` or `CRITICAL`.
    pub fn parse(value: &str) -> (r: Result<LogLevel, AppError>)
        ensures
            match r {
                Ok(l) => level_name(l) == value@ && level_named(value@) == Some(l),
                Err(e) => (forall|l: LogLevel| level_name(l) != value@) && level_named(value@) is None
                    && e.message@
                    == "invalid log level: "@ + value@,
            },
    {
        if str_eq(value, "DEBUG") {
            Ok(LogLevel::Debug)
        } else if str_eq(value, "INFO") {
            Ok(LogLevel::Info)
        } else if str_eq(value, "WARNING") {
            Ok(LogLevel::Warning)
        } else if str_eq(value, "ERROR") {
            Ok(LogLevel::Error)
        } else if str_eq(value, "CRITICAL") {
            Ok(LogLevel::Critical)
        } else {
            Err(app_error(concat2("invalid log level: ", value)))
        }
    }

    /// The numeric severity of this level.
    pub fn rank(self) -> (n: u8)
        ensures
            n == level_rank(self),
    {
        match self {
            LogLevel::Debug => 0,
            LogLevel::Info => 1,
            LogLevel::Warning => 2,
            LogLevel::Error => 3,
            LogLevel::Critical => 4,
        }
    }

    /// Whether a message of severity `self` is shown under the threshold `threshold`.
    pub fn enabled(self, threshold: LogLevel) -> (b: bool)
        ensures
            b == (level_rank(self) >= level_rank(threshold)),
    {
        self.rank() >= threshold.rank()
    }
}

} // verus!
