//! Which messages the log sink lets through.

use vstd::prelude::*;
use crate::text::same_text;

verus! {

/// The most verbose level that is written, from least to most verbose.
#[derive(Clone, Copy, Debug, PartialEq, Eq, Structural)]
pub enum LogLevel {
    Error,
    Warn,
    Info,
    Debug,
    Trace,
}

/// The text with every character in lower case, as `str::to_lowercase`
/// gives it.
pub uninterp spec fn lowercased(text: Seq<char>) -> Seq<char>;

/// Trusted: `str::to_lowercase`. The result depends on the text alone.
#[verifier::external_body]
fn to_lowercase(text: &str) -> (lowered: String)
    ensures
        lowered@ == lowercased(text@),
{
    text.to_lowercase()
}

/// The level that a lower-case level name stands for. A name that is none
/// of the five stands for `Info`.
pub open spec fn level_named(lowered: Seq<char>) -> LogLevel {
    if lowered == "trace"@ {
        LogLevel::Trace
    } else if lowered == "debug"@ {
        LogLevel::Debug
    } else if lowered == "info"@ {
        LogLevel::Info
    } else if lowered == "warn"@ {
        LogLevel::Warn
    } else if lowered == "error"@ {
        LogLevel::Error
    } else {
        LogLevel::Info
    }
}

/// The level that a lower-case level name stands for.
pub fn level_from_lowercase(lowered: &str) -> (level: LogLevel)
    ensures
        level == level_named(lowered@),
{
    if same_text(lowered, "trace") {
        LogLevel::Trace
    } else if same_text(lowered, "debug") {
        LogLevel::Debug
    } else if same_text(lowered, "info") {
        LogLevel::Info
    } else if same_text(lowered, "warn") {
        LogLevel::Warn
    } else if same_text(lowered, "error") {
        LogLevel::Error
    } else {
        LogLevel::Info
    }
}

/// The level that a configured level name stands for, whatever the case of
/// its letters.
pub fn parse_level(level: &str) -> (parsed: LogLevel)
    ensures
        parsed == level_named(lowercased(level@)),
{
    let lowered = to_lowercase(level);
    level_from_lowercase(lowered.as_str())
}

} // verus!
