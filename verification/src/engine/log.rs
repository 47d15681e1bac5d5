//! Lines for the log.

use vstd::prelude::*;

use crate::text::owned;

verus! {

/// How grave a log line is.
#[derive(Debug, Clone, Copy, PartialEq, Eq, Structural)]
pub enum Level {
    Info,
    Warn,
    Error,
}

impl Level {
    /// The name of the level in the log.
    pub fn name(&self) -> (r: &'static str)
        ensures
            r@ == (match self {
                Level::Info => "INFO"@,
                Level::Warn => "WARN"@,
                Level::Error => "ERROR"@,
            }),
    {
        match self {
            Level::Info => "INFO",
            Level::Warn => "WARN",
            Level::Error => "ERROR",
        }
    }
}

/// A log line as a mathematical object.
pub struct LogV {
    pub span: Seq<char>,
    pub level: Level,
    pub text: Seq<char>,
}

/// A line for the log of a span: a resource, or one of its builds.
#[derive(Debug, PartialEq)]
pub struct LogLine {
    pub span: String,
    pub level: Level,
    pub text: String,
}

impl View for LogLine {
    type V = LogV;

    open spec fn view(&self) -> LogV {
        LogV { span: self.span@, level: self.level, text: self.text@ }
    }
}

/// The contents of a list of log lines.
pub open spec fn logs(v: Seq<LogLine>) -> Seq<LogV> {
    v.map_values(|l: LogLine| l@)
}

/// Pushing a line pushes its contents.
pub broadcast proof fn logs_push(v: Seq<LogLine>, l: LogLine)
    ensures
        #[trigger] logs(v.push(l)) == logs(v).push(l@),
{
    assert(logs(v.push(l)) =~= logs(v).push(l@));
}

/// A log line.
pub open spec fn log_v(span: Seq<char>, level: Level, text: Seq<char>) -> LogV {
    LogV { span, level, text }
}

/// A log line.
pub fn line(span: &str, level: Level, text: String) -> (r: LogLine)
    ensures
        r@ == log_v(span@, level, text@),
{
    LogLine { span: owned(span), level, text }
}

} // verus!
