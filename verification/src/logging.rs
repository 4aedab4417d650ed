//! Log level selection, mapping the level names of azbridge to
//! the five `tracing` levels.
//!
//! - `QUIET` / `NONE` — no output (reported as errors-only)
//! - `FATAL` / `ERROR` — errors
//! - `INFO` — informational (default)
//! - `VERBOSE` — debug-level detail
//! - `DEBUG` / `DEBUG1` / `DEBUG2` / `DEBUG3` — trace-level detail

use vstd::prelude::*;

use crate::text::{chars_eq_str, chars_of};

verus! {

/// A maximum log level, one per level of `tracing::Level`.
#[derive(Debug, Clone, Copy, PartialEq, Eq, Structural)]
pub enum LogLevel {
    Error,
    Warn,
    Info,
    Debug,
    Trace,
}

/// The uppercase of a string as `str::to_uppercase` computes it (full
/// Unicode case mapping).
pub uninterp spec fn unicode_upper(s: Seq<char>) -> Seq<char>;

/// `str::to_uppercase`.
#[verifier::external_body]
fn to_uppercase(s: &str) -> (r: String)
    ensures
        r@ == unicode_upper(s@),
{
    s.to_uppercase()
}

/// The level an uppercased level name selects; unknown names select `Info`.
pub open spec fn level_of_upper(u: Seq<char>) -> LogLevel {
    if u == "QUIET"@ || u == "NONE"@ || u == "FATAL"@ || u == "ERROR"@ {
        LogLevel::Error
    } else if u == "INFO"@ {
        LogLevel::Info
    } else if u == "VERBOSE"@ {
        LogLevel::Debug
    } else if u == "DEBUG"@ || u == "DEBUG1"@ || u == "DEBUG2"@ || u == "DEBUG3"@ {
        LogLevel::Trace
    } else {
        LogLevel::Info
    }
}

/// Whether an uppercased level name means "suppress all output".
pub open spec fn is_quiet_upper(u: Seq<char>) -> bool {
    u == "QUIET"@ || u == "NONE"@
}

/// Maps an already uppercased level name to its level.
pub fn log_level_from_upper(upper: &str) -> (r: LogLevel)
    ensures
        r == level_of_upper(upper@),
{
    let v = chars_of(upper);
    let u = v.as_slice();
    if chars_eq_str(u, "QUIET") || chars_eq_str(u, "NONE") || chars_eq_str(u, "FATAL")
        || chars_eq_str(u, "ERROR") {
        LogLevel::Error
    } else if chars_eq_str(u, "INFO") {
        LogLevel::Info
    } else if chars_eq_str(u, "VERBOSE") {
        LogLevel::Debug
    } else if chars_eq_str(u, "DEBUG") || chars_eq_str(u, "DEBUG1") || chars_eq_str(u, "DEBUG2")
        || chars_eq_str(u, "DEBUG3") {
        LogLevel::Trace
    } else {
        LogLevel::Info
    }
}

/// Whether an already uppercased level name means "suppress all output".
pub fn quiet_from_upper(upper: &str) -> (r: bool)
    ensures
        r == is_quiet_upper(upper@),
{
    let v = chars_of(upper);
    chars_eq_str(v.as_slice(), "QUIET") || chars_eq_str(v.as_slice(), "NONE")
}

/// Maps an azbridge log level name to a maximum log level.
pub fn parse_log_level(level: &str) -> (r: LogLevel)
    ensures
        r == level_of_upper(unicode_upper(level@)),
{
    let upper = to_uppercase(level);
    log_level_from_upper(upper.as_str())
}

/// Returns true if the log level string means "suppress all output".
pub fn is_quiet(level: &str) -> (r: bool)
    ensures
        r == is_quiet_upper(unicode_upper(level@)),
{
    let upper = to_uppercase(level);
    quiet_from_upper(upper.as_str())
}

/// A level name that suppresses output selects errors-only as its level.
pub proof fn law_quiet_selects_errors_only(upper: Seq<char>)
    ensures
        is_quiet_upper(upper) ==> level_of_upper(upper) == LogLevel::Error,
{
}

} // verus!
