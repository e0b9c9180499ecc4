//! Command-line options and the log level they ask for.
use vstd::prelude::*;

use crate::text::{chars_of, is_text, lowercased, to_lowercase};

verus! {

/// The command-line options: the show file to open and how verbose the log
/// is (the number of `-v` flags).
#[derive(Clone, Debug)]
pub struct Opts {
    pub file: Option<String>,
    pub verbose: u8,
}

/// How much is logged.
#[derive(Clone, Copy, Debug, PartialEq, Eq, Structural)]
pub enum LogLevel {
    Error,
    Warn,
    Info,
    Debug,
    Trace,
}

/// The verbosity a `RUST_LOG` value asks for, by its lower-case form.
pub open spec fn env_verbosity(rust_log: Seq<char>) -> u8 {
    let l = lowercased(rust_log);
    if l == "trace"@ {
        4
    } else if l == "debug"@ {
        3
    } else if l == "info"@ {
        2
    } else if l == "warn"@ {
        1
    } else {
        0
    }
}

/// The level for a verbosity: 0 errors only, then warnings, information,
/// debugging, and from 4 on everything.
pub open spec fn level_for(verbosity: u8) -> LogLevel {
    if verbosity == 0 {
        LogLevel::Error
    } else if verbosity == 1 {
        LogLevel::Warn
    } else if verbosity == 2 {
        LogLevel::Info
    } else if verbosity == 3 {
        LogLevel::Debug
    } else {
        LogLevel::Trace
    }
}

/// The log level: the more verbose of the `-v` count and the `RUST_LOG`
/// setting (empty when unset).
pub fn log_level(verbose: u8, rust_log: &str) -> (r: LogLevel)
    ensures
        r == level_for(if verbose >= env_verbosity(rust_log@) {
            verbose
        } else {
            env_verbosity(rust_log@)
        }),
{
    let lower = to_lowercase(rust_log);
    let l = chars_of(lower.as_str());
    let from_env: u8 = if is_text(l.as_slice(), "trace") {
        4
    } else if is_text(l.as_slice(), "debug") {
        3
    } else if is_text(l.as_slice(), "info") {
        2
    } else if is_text(l.as_slice(), "warn") {
        1
    } else {
        0
    };
    let v = if verbose >= from_env { verbose } else { from_env };
    if v == 0 {
        LogLevel::Error
    } else if v == 1 {
        LogLevel::Warn
    } else if v == 2 {
        LogLevel::Info
    } else if v == 3 {
        LogLevel::Debug
    } else {
        LogLevel::Trace
    }
}

} // verus!
