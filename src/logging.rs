//! Verbosity as an explicit value: the log levels chosen by the quiet and
//! verbose flags.
use vstd::prelude::*;

verus! {

/// How much is logged.
#[derive(Debug, Clone, Copy, PartialEq, Eq, Structural)]
pub enum LogLevel {
    Off,
    Error,
    Warn,
    Info,
    Debug,
    Trace,
}

/// The levels for the tool's own messages and for everything else, given how
/// often the quiet and the verbose flags were given: quiet wins; by default
/// the tool informs and others only report errors, and each verbose flag
/// raises the levels.
pub open spec fn levels_for(quiet: u64, verbose: u64) -> (LogLevel, LogLevel) {
    if quiet == 1 {
        (LogLevel::Error, LogLevel::Error)
    } else if quiet == 2 {
        (LogLevel::Off, LogLevel::Off)
    } else if verbose == 0 {
        (LogLevel::Info, LogLevel::Error)
    } else if verbose == 1 {
        (LogLevel::Debug, LogLevel::Warn)
    } else if verbose == 2 {
        (LogLevel::Debug, LogLevel::Info)
    } else if verbose == 3 {
        (LogLevel::Trace, LogLevel::Info)
    } else {
        (LogLevel::Trace, LogLevel::Trace)
    }
}

/// The levels for the tool's own messages and for everything else.
pub fn log_levels(quiet: u64, verbose: u64) -> (r: (LogLevel, LogLevel))
    ensures
        r == levels_for(quiet, verbose),
{
    if quiet == 1 {
        (LogLevel::Error, LogLevel::Error)
    } else if quiet == 2 {
        (LogLevel::Off, LogLevel::Off)
    } else if verbose == 0 {
        (LogLevel::Info, LogLevel::Error)
    } else if verbose == 1 {
        (LogLevel::Debug, LogLevel::Warn)
    } else if verbose == 2 {
        (LogLevel::Debug, LogLevel::Info)
    } else if verbose == 3 {
        (LogLevel::Trace, LogLevel::Info)
    } else {
        (LogLevel::Trace, LogLevel::Trace)
    }
}

} // verus!
