//! Console logging: a fixed verbosity threshold, a label per level, and
//! one line per message. Only the final write to standard output is
//! trusted; which lines are printed, and how they are labelled, is
//! verified.

use std::io::Write;

use vstd::prelude::*;

use crate::text::concat_str;

verus! {

/// A log level, from most to least severe.
#[derive(Clone, Copy, PartialEq, Eq, Structural, Debug)]
pub enum Level {
    /// A fatal or near-fatal problem.
    Error,
    /// A suspicious condition.
    Warn,
    /// Normal progress.
    Info,
    /// Diagnostic detail.
    Debug,
    /// The most verbose detail; filtered out by the default threshold.
    Trace,
}

/// Severity rank: lower is more severe, and a message passes the filter
/// when its rank does not exceed the threshold's.
pub open spec fn level_rank(l: Level) -> int {
    match l {
        Level::Error => 1,
        Level::Warn => 2,
        Level::Info => 3,
        Level::Debug => 4,
        Level::Trace => 5,
    }
}

/// The logger configuration: everything up to `max_level` is printed.
pub struct Logger {
    /// The most verbose level still printed.
    pub max_level: Level,
}

impl Logger {
    /// Whether a message at `level` passes the filter.
    pub fn enabled(&self, level: Level) -> (b: bool)
        ensures
            b == (level_rank(level) <= level_rank(self.max_level)),
    {
        let r = match level {
            Level::Error => 1u8,
            Level::Warn => 2u8,
            Level::Info => 3u8,
            Level::Debug => 4u8,
            Level::Trace => 5u8,
        };
        let m = match self.max_level {
            Level::Error => 1u8,
            Level::Warn => 2u8,
            Level::Info => 3u8,
            Level::Debug => 4u8,
            Level::Trace => 5u8,
        };
        r <= m
    }
}

/// The logger with the default threshold: everything up to `Debug` is
/// printed, `Trace` is filtered out.
pub fn initialize_logger() -> (l: Logger)
    ensures
        l.max_level == Level::Debug,
{
    Logger { max_level: Level::Debug }
}

/// Relies on `std::io::Stdout::write_fmt` (through `writeln`): prints one
/// line to standard output.
#[verifier::external_body]
fn print_line(line: &str) {
    let _ = writeln!(std::io::stdout(), "{}", line);
}

/// Prints a message at the `Info` level.
pub fn log_info(message: &str) {
    print_line(concat_str("INFO  - ", message).as_str());
}

/// Prints a message at the `Error` level.
pub fn log_error(message: &str) {
    print_line(concat_str("ERROR - ", message).as_str());
}

/// Prints a message at the `Warn` level.
pub fn log_warn(message: &str) {
    print_line(concat_str("WARN  - ", message).as_str());
}

/// Prints a message at the `Debug` level.
pub fn log_debug(message: &str) {
    print_line(concat_str("DEBUG - ", message).as_str());
}

/// A message at the `Trace` level: filtered out by the default `Debug`
/// threshold, so nothing is printed.
pub fn log_trace(message: &str) {
    let _unused = message;
}

} // verus!
