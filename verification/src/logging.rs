use std::str::FromStr;
use vstd::prelude::*;

verus! {

/// The levels of the logging facade, the most severe first.
#[derive(Debug, Clone, Copy, PartialEq, Eq, Structural)]
pub enum LogLevel {
    Error,
    Warn,
    Info,
    Debug,
    Trace,
}

/// Why a configured log level is turned down.
#[derive(Debug, Clone, Copy, PartialEq, Eq, Structural)]
pub enum LogLevelError {
    /// The level is more severe than `Info`, so the tournament's own messages
    /// would not be shown.
    LogLevelTooHigh,
    /// The text names no level.
    ParseError,
}

impl LogLevel {
    /// The rank of the level: one for `Error`, rising with verbosity.
    pub open spec fn rank(self) -> int {
        match self {
            LogLevel::Error => 1,
            LogLevel::Warn => 2,
            LogLevel::Info => 3,
            LogLevel::Debug => 4,
            LogLevel::Trace => 5,
        }
    }

    /// The rank of the level: one for `Error`, rising with verbosity.
    pub fn severity(self) -> (rank: u8)
        ensures
            rank == self.rank(),
    {
        match self {
            LogLevel::Error => 1,
            LogLevel::Warn => 2,
            LogLevel::Info => 3,
            LogLevel::Debug => 4,
            LogLevel::Trace => 5,
        }
    }
}

/// Whether `text` is the given name in any mix of upper and lower case. The
/// name is handed over twice, once in each case.
pub open spec fn is_name(text: Seq<char>, upper: Seq<char>, lower: Seq<char>) -> bool {
    &&& text.len() == upper.len()
    &&& forall|k: int| 0 <= k < text.len() ==> text[k] == upper[k] || text[k] == lower[k]
}

/// The level that a text names, if it names one.
pub open spec fn level_named(text: Seq<char>) -> Option<LogLevel> {
    if is_name(text, seq!['E', 'R', 'R', 'O', 'R'], seq!['e', 'r', 'r', 'o', 'r']) {
        Some(LogLevel::Error)
    } else if is_name(text, seq!['W', 'A', 'R', 'N'], seq!['w', 'a', 'r', 'n']) {
        Some(LogLevel::Warn)
    } else if is_name(text, seq!['I', 'N', 'F', 'O'], seq!['i', 'n', 'f', 'o']) {
        Some(LogLevel::Info)
    } else if is_name(text, seq!['D', 'E', 'B', 'U', 'G'], seq!['d', 'e', 'b', 'u', 'g']) {
        Some(LogLevel::Debug)
    } else if is_name(text, seq!['T', 'R', 'A', 'C', 'E'], seq!['t', 'r', 'a', 'c', 'e']) {
        Some(LogLevel::Trace)
    } else {
        None
    }
}

/// What becomes of a configured level: a text that names none is a parse
/// error, a level more severe than `Info` is too high, every other is accepted.
pub open spec fn level_verdict(level: Option<LogLevel>) -> Result<(), LogLevelError> {
    match level {
        None => Err(LogLevelError::ParseError),
        Some(level) => if level.rank() < LogLevel::Info.rank() {
            Err(LogLevelError::LogLevelTooHigh)
        } else {
            Ok(())
        },
    }
}

/// Parses a level with `log::Level::from_str`.
///
/// Trusted, from the source of `log`: the text is compared, ignoring ASCII
/// case, with the names ERROR, WARN, INFO, DEBUG and TRACE in turn, and the
/// level of the first name that matches is returned; OFF and every other text
/// are refused.
#[verifier::external_body]
fn parse_level(text: &str) -> (level: Option<LogLevel>)
    ensures
        level == level_named(text@),
{
    match log::Level::from_str(text) {
        Ok(log::Level::Error) => Some(LogLevel::Error),
        Ok(log::Level::Warn) => Some(LogLevel::Warn),
        Ok(log::Level::Info) => Some(LogLevel::Info),
        Ok(log::Level::Debug) => Some(LogLevel::Debug),
        Ok(log::Level::Trace) => Some(LogLevel::Trace),
        Err(_) => None,
    }
}

/// Decides on a level that has been parsed.
pub fn judge_level(level: Option<LogLevel>) -> (verdict: Result<(), LogLevelError>)
    ensures
        verdict == level_verdict(level),
{
    match level {
        None => Err(LogLevelError::ParseError),
        Some(level) => {
            if level.severity() < LogLevel::Info.severity() {
                Err(LogLevelError::LogLevelTooHigh)
            } else {
                Ok(())
            }
        },
    }
}

/// Checks the log level that the program has been configured with, given as
/// text: it has to name a level, and one that is not more severe than `Info`.
pub fn check_log_level(text: &str) -> (verdict: Result<(), LogLevelError>)
    ensures
        verdict == level_verdict(level_named(text@)),
{
    judge_level(parse_level(text))
}

} // verus!
