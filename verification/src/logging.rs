//! How the console logger presents each level.

use vstd::prelude::*;

verus! {

/// The severity of a log record.
#[derive(Clone, Copy, PartialEq, Eq, Structural, Debug)]
pub enum LogLevel {
    Error,
    Warn,
    Info,
    Debug,
    Trace,
}

/// The console color of a level's tag.
#[derive(Clone, Copy, PartialEq, Eq, Structural, Debug)]
pub enum LogColor {
    Red,
    Yellow,
    Cyan,
    Purple,
    Normal,
}

/// Errors in red, warnings in yellow, information in cyan, debug output in
/// purple, and traces uncolored.
pub open spec fn level_color_spec(level: LogLevel) -> LogColor {
    match level {
        LogLevel::Error => LogColor::Red,
        LogLevel::Warn => LogColor::Yellow,
        LogLevel::Info => LogColor::Cyan,
        LogLevel::Debug => LogColor::Purple,
        LogLevel::Trace => LogColor::Normal,
    }
}

/// The color of a level's tag on the console.
pub fn level_color(level: LogLevel) -> (r: LogColor)
    ensures
        r == level_color_spec(level),
{
    match level {
        LogLevel::Error => LogColor::Red,
        LogLevel::Warn => LogColor::Yellow,
        LogLevel::Info => LogColor::Cyan,
        LogLevel::Debug => LogColor::Purple,
        LogLevel::Trace => LogColor::Normal,
    }
}

} // verus!
