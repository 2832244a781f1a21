//! Which log notifications the tool server sends.

use vstd::prelude::*;

verus! {

/// The severity of a log notification, least severe first.
#[derive(Debug, Clone, Copy, PartialEq, Eq, Structural)]
pub enum LogLevel {
    Debug,
    Info,
    Notice,
    Warning,
    Error,
    Critical,
    Alert,
    Emergency,
}

/// The rank of a level: 0 for `Debug` up to 7 for `Emergency`.
pub open spec fn spec_level_rank(level: LogLevel) -> u8 {
    match level {
        LogLevel::Debug => 0,
        LogLevel::Info => 1,
        LogLevel::Notice => 2,
        LogLevel::Warning => 3,
        LogLevel::Error => 4,
        LogLevel::Critical => 5,
        LogLevel::Alert => 6,
        LogLevel::Emergency => 7,
    }
}

/// The rank of a level.
pub fn level_rank(level: LogLevel) -> (r: u8)
    ensures
        r == spec_level_rank(level),
{
    match level {
        LogLevel::Debug => 0,
        LogLevel::Info => 1,
        LogLevel::Notice => 2,
        LogLevel::Warning => 3,
        LogLevel::Error => 4,
        LogLevel::Critical => 5,
        LogLevel::Alert => 6,
        LogLevel::Emergency => 7,
    }
}

/// Whether a notification of `level` is sent while the client asked for
/// `min_level` and up.
pub fn should_emit(level: LogLevel, min_level: LogLevel) -> (r: bool)
    ensures
        r == (spec_level_rank(level) >= spec_level_rank(min_level)),
{
    level_rank(level) >= level_rank(min_level)
}

} // verus!
