//! The verbosity levels of the log and how the configured number maps to
//! them.

use vstd::prelude::*;

verus! {

/// How much is logged, from everything to nothing.
#[derive(Clone, Copy, Debug, PartialEq, Eq, Structural)]
pub enum LogLevel {
    Trace,
    Debug,
    Info,
    Warn,
    Error,
    Off,
}

/// The level a configured number stands for: 0 trace, 1 debug, 2 info,
/// 3 warn, 4 error, anything higher off.
pub open spec fn level_of(level: u8) -> LogLevel {
    if level == 0 {
        LogLevel::Trace
    } else if level == 1 {
        LogLevel::Debug
    } else if level == 2 {
        LogLevel::Info
    } else if level == 3 {
        LogLevel::Warn
    } else if level == 4 {
        LogLevel::Error
    } else {
        LogLevel::Off
    }
}

/// Maps a configured log level number to its level.
pub fn level_filter(level: u8) -> (r: LogLevel)
    ensures
        r == level_of(level),
{
    match level {
        0 => LogLevel::Trace,
        1 => LogLevel::Debug,
        2 => LogLevel::Info,
        3 => LogLevel::Warn,
        4 => LogLevel::Error,
        _ => LogLevel::Off,
    }
}

} // verus!
