//! The level at which the service logs.

use crate::text::same_text;
use vstd::prelude::*;

verus! {

/// How much the service logs.
#[derive(Debug, Clone, Copy, PartialEq, Eq, Structural)]
pub enum LogLevel {
    Trace,
    Debug,
    Info,
    Warn,
    Error,
}

/// What `str::to_uppercase` returns for a text.
pub uninterp spec fn uppercase_of(text: Seq<char>) -> Seq<char>;

/// The level that an upper-case name stands for; any other name stands for
/// `Info`.
pub open spec fn level_of(name: Seq<char>) -> LogLevel {
    if name == "TRACE"@ {
        LogLevel::Trace
    } else if name == "DEBUG"@ {
        LogLevel::Debug
    } else if name == "INFO"@ {
        LogLevel::Info
    } else if name == "WARN"@ {
        LogLevel::Warn
    } else if name == "ERROR"@ {
        LogLevel::Error
    } else {
        LogLevel::Info
    }
}

/// The text in upper case.
///
/// Calls `str::to_uppercase`, which maps each character by the Unicode
/// property Uppercase; the contract gives the result a name and says no more
/// of it.
#[verifier::external_body]
fn uppercase(text: &str) -> (upper: String)
    ensures
        upper@ == uppercase_of(text@),
{
    text.to_uppercase()
}

/// The level that an upper-case name stands for.
pub fn level_named(name: &str) -> (level: LogLevel)
    ensures
        level == level_of(name@),
{
    if same_text(name, "TRACE") {
        LogLevel::Trace
    } else if same_text(name, "DEBUG") {
        LogLevel::Debug
    } else if same_text(name, "INFO") {
        LogLevel::Info
    } else if same_text(name, "WARN") {
        LogLevel::Warn
    } else if same_text(name, "ERROR") {
        LogLevel::Error
    } else {
        LogLevel::Info
    }
}

/// The level that a configured name stands for, whatever its case.
pub fn log_level(configured: &str) -> (level: LogLevel)
    ensures
        level == level_of(uppercase_of(configured@)),
{
    let upper: String = uppercase(configured);
    level_named(upper.as_str())
}

} // verus!
