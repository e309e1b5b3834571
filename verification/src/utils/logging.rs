//! Choice of the log verbosity from the configured level name.

use vstd::prelude::*;

verus! {

/// Log verbosity filter.
#[derive(Debug, Clone, Copy, PartialEq, Eq, Structural)]
pub enum LogVerbosity {
    Error,
    Warn,
    Info,
    Debug,
    Trace,
}

/// The verbosity that a configured level name selects: `"error"`, `"warn"`,
/// `"info"`, `"debug"` and `"trace"` select their level, anything else `Info`.
pub open spec fn spec_verbosity_of(name: Seq<char>) -> LogVerbosity {
    if name == "error"@ {
        LogVerbosity::Error
    } else if name == "warn"@ {
        LogVerbosity::Warn
    } else if name == "info"@ {
        LogVerbosity::Info
    } else if name == "debug"@ {
        LogVerbosity::Debug
    } else if name == "trace"@ {
        LogVerbosity::Trace
    } else {
        LogVerbosity::Info
    }
}

/// Selects the log verbosity for a configured level name.
pub fn verbosity_of(name: &str) -> (r: LogVerbosity)
    ensures
        r == spec_verbosity_of(name@),
{
    let name = name.to_owned();
    if name == "error".to_owned() {
        LogVerbosity::Error
    } else if name == "warn".to_owned() {
        LogVerbosity::Warn
    } else if name == "info".to_owned() {
        LogVerbosity::Info
    } else if name == "debug".to_owned() {
        LogVerbosity::Debug
    } else if name == "trace".to_owned() {
        LogVerbosity::Trace
    } else {
        LogVerbosity::Info
    }
}

} // verus!
