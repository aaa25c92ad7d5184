//! The level at which the process logs.

use vstd::prelude::*;
use crate::util::bridge::{eq_ignore_ascii_case, same_ignoring_ascii_case};

verus! {

/// How much is logged, from the most to the least.
#[derive(Debug, Clone, Copy, PartialEq, Eq, Structural)]
pub enum LogLevel {
    Trace,
    Debug,
    Info,
    Warn,
    Error,
}

/// The level that a configured name stands for, whatever its case; a name
/// that is none of the five stands for `Info`.
pub open spec fn level_named(name: Seq<char>) -> LogLevel {
    if same_ignoring_ascii_case(name, "trace"@) {
        LogLevel::Trace
    } else if same_ignoring_ascii_case(name, "debug"@) {
        LogLevel::Debug
    } else if same_ignoring_ascii_case(name, "info"@) {
        LogLevel::Info
    } else if same_ignoring_ascii_case(name, "warn"@) {
        LogLevel::Warn
    } else if same_ignoring_ascii_case(name, "error"@) {
        LogLevel::Error
    } else {
        LogLevel::Info
    }
}

/// The level to log at, given the configured name.
pub fn init_logs(name: &str) -> (level: LogLevel)
    ensures
        level == level_named(name@),
{
    if eq_ignore_ascii_case(name, "trace") {
        LogLevel::Trace
    } else if eq_ignore_ascii_case(name, "debug") {
        LogLevel::Debug
    } else if eq_ignore_ascii_case(name, "info") {
        LogLevel::Info
    } else if eq_ignore_ascii_case(name, "warn") {
        LogLevel::Warn
    } else if eq_ignore_ascii_case(name, "error") {
        LogLevel::Error
    } else {
        LogLevel::Info
    }
}

} // verus!
