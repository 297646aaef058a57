//! Severity levels and the daemon's own log lines.

use vstd::prelude::*;
use crate::color::{ansi_color, ansi_fg, ansi_reset, ansi_white, reset_fg, white_fg};
use crate::text::{
    decimal, decimal_string, filled_right, push_left_aligned, push_signed_decimal, signed_decimal,
    starts_with, str_eq,
};

verus! {

/// How grave a log line is, gravest first.
#[derive(Clone, Copy, Debug, PartialEq, Eq, Structural)]
pub enum LogLevel {
    Error,
    Warn,
    Info,
    Debug,
    Trace,
}

/// The number of a level: 0 for `Error` up to 4 for `Trace`.
pub open spec fn level_number(level: LogLevel) -> nat {
    match level {
        LogLevel::Error => 0,
        LogLevel::Warn => 1,
        LogLevel::Info => 2,
        LogLevel::Debug => 3,
        LogLevel::Trace => 4,
    }
}

/// The level of a number: 0 is `Error`, 1 `Warn`, 2 `Info`, 3 `Debug`, and
/// everything from 4 on is `Trace`.
pub open spec fn level_numbered(number: nat) -> LogLevel {
    if number == 0 {
        LogLevel::Error
    } else if number == 1 {
        LogLevel::Warn
    } else if number == 2 {
        LogLevel::Info
    } else if number == 3 {
        LogLevel::Debug
    } else {
        LogLevel::Trace
    }
}

/// The name of a level, in capitals.
pub open spec fn level_name(level: LogLevel) -> Seq<char> {
    match level {
        LogLevel::Error => "ERROR"@,
        LogLevel::Warn => "WARN"@,
        LogLevel::Info => "INFO"@,
        LogLevel::Debug => "DEBUG"@,
        LogLevel::Trace => "TRACE"@,
    }
}

/// The level with this name, if the name is one of the five.
pub open spec fn level_named(name: Seq<char>) -> Option<LogLevel> {
    if name == "ERROR"@ {
        Some(LogLevel::Error)
    } else if name == "WARN"@ {
        Some(LogLevel::Warn)
    } else if name == "INFO"@ {
        Some(LogLevel::Info)
    } else if name == "DEBUG"@ {
        Some(LogLevel::Debug)
    } else if name == "TRACE"@ {
        Some(LogLevel::Trace)
    } else {
        None
    }
}

pub fn level_as_usize(level: LogLevel) -> (number: usize)
    ensures
        number == level_number(level),
{
    match level {
        LogLevel::Error => 0,
        LogLevel::Warn => 1,
        LogLevel::Info => 2,
        LogLevel::Debug => 3,
        LogLevel::Trace => 4,
    }
}

pub fn level_as_str(level: LogLevel) -> (name: &'static str)
    ensures
        name@ == level_name(level),
{
    match level {
        LogLevel::Error => "ERROR",
        LogLevel::Warn => "WARN",
        LogLevel::Info => "INFO",
        LogLevel::Debug => "DEBUG",
        LogLevel::Trace => "TRACE",
    }
}

/// Numbering the levels and naming them back gives the level again, and a
/// level's name is the name of that level alone.
pub proof fn lemma_levels_round_trip(level: LogLevel)
    ensures
        level_numbered(level_number(level)) == level,
        level_named(level_name(level)) == Some(level),
{
    reveal_strlit("ERROR");
    reveal_strlit("WARN");
    reveal_strlit("INFO");
    reveal_strlit("DEBUG");
    reveal_strlit("TRACE");
    assert("WARN"@[0] != "ERROR"@[0]);
    assert("INFO"@[0] != "ERROR"@[0]);
    assert("INFO"@[0] != "WARN"@[0]);
    assert("DEBUG"@[0] != "ERROR"@[0]);
    assert("DEBUG"@[0] != "WARN"@[0]);
    assert("DEBUG"@[0] != "INFO"@[0]);
    assert("TRACE"@[0] != "ERROR"@[0]);
    assert("TRACE"@[0] != "WARN"@[0]);
    assert("TRACE"@[0] != "INFO"@[0]);
    assert("TRACE"@[0] != "DEBUG"@[0]);
}

/// A value that has a number as a severity.
pub trait AsUsize {
    /// The number that [`AsUsize::as_usize`] returns.
    spec fn number(&self) -> nat;

    fn as_usize(&self) -> (number: usize)
        ensures
            number == self.number(),
    ;
}

impl AsUsize for LogLevel {
    open spec fn number(&self) -> nat {
        level_number(*self)
    }

    fn as_usize(&self) -> (number: usize) {
        level_as_usize(*self)
    }
}

/// A value that may stand for a level: a number, or a name.
pub trait AsLogLevel {
    /// The level that [`AsLogLevel::as_level`] returns.
    spec fn level(&self) -> Option<LogLevel>;

    fn as_level(&self) -> (level: Option<LogLevel>)
        ensures
            level == self.level(),
    ;
}

impl AsLogLevel for usize {
    open spec fn level(&self) -> Option<LogLevel> {
        Some(level_numbered(*self as nat))
    }

    fn as_level(&self) -> (level: Option<LogLevel>) {
        let level = match *self {
            0 => LogLevel::Error,
            1 => LogLevel::Warn,
            2 => LogLevel::Info,
            3 => LogLevel::Debug,
            _ => LogLevel::Trace,
        };
        Some(level)
    }
}

impl AsLogLevel for str {
    open spec fn level(&self) -> Option<LogLevel> {
        level_named(self@)
    }

    fn as_level(&self) -> (level: Option<LogLevel>) {
        if str_eq(self, "ERROR") {
            Some(LogLevel::Error)
        } else if str_eq(self, "WARN") {
            Some(LogLevel::Warn)
        } else if str_eq(self, "INFO") {
            Some(LogLevel::Info)
        } else if str_eq(self, "DEBUG") {
            Some(LogLevel::Debug)
        } else if str_eq(self, "TRACE") {
            Some(LogLevel::Trace)
        } else {
            None
        }
    }
}

/// Why logging could not be set up.
#[derive(Clone, Copy, Debug, PartialEq, Eq, Structural)]
pub enum InitError {
    /// The severity stands for no level.
    InvalidSeverity,
}

/// The filter in front of the daemon's log: it lets a line through when its
/// level is no finer than the severity and it comes from the daemon itself.
#[derive(Clone, Copy, Debug, PartialEq, Eq, Structural)]
pub struct Logger {
    /// The number of the finest level that is still written.
    pub level: usize,
}

/// The colour of a level.
pub open spec fn level_color(level: LogLevel) -> Seq<char> {
    match level {
        LogLevel::Trace => ansi_color(2, 2, 2),
        LogLevel::Debug => ansi_color(2, 2, 2),
        LogLevel::Info => ansi_color(0, 1, 3),
        LogLevel::Warn => ansi_color(4, 3, 0),
        LogLevel::Error => ansi_color(2, 0, 0),
    }
}

/// The colour of a level.
pub fn color(level: LogLevel) -> (sequence: String)
    ensures
        sequence@ == level_color(level),
{
    match level {
        LogLevel::Trace => ansi_fg(2, 2, 2),
        LogLevel::Debug => ansi_fg(2, 2, 2),
        LogLevel::Info => ansi_fg(0, 1, 3),
        LogLevel::Warn => ansi_fg(4, 3, 0),
        LogLevel::Error => ansi_fg(2, 0, 0),
    }
}

/// Where a log line comes from, and what it says.
pub struct Entry<'a> {
    /// How grave it is.
    pub level: LogLevel,
    /// The part of the program that the line is filed under.
    pub target: &'a str,
    /// The module that wrote it.
    pub module: &'a str,
    /// The line in that module.
    pub line: u32,
    /// The words.
    pub message: &'a str,
}

/// One line of the daemon's log: grey, the time, the first letter of the
/// level in the level's colour, the process and the place in the source, and
/// the words in white.
pub open spec fn log_line(now: Seq<char>, pid: i32, entry: Entry) -> Seq<char> {
    ansi_color(2, 2, 2) + " "@ + now + " "@ + level_color(entry.level) + seq![
        level_name(entry.level)[0],
    ] + " "@ + signed_decimal(pid as int) + "/"@ + entry.module@ + ":"@ + filled_right(
        decimal(entry.line as nat),
        4,
    ) + ansi_color(2, 2, 2) + " - "@ + ansi_white() + entry.message@ + ansi_reset() + "\n"@
}

/// Calls `Utc::now` of `chrono` and writes what it gives as text. Nothing
/// is claimed of the text: it is the time.
#[verifier::external_body]
fn utc_now() -> (now: String) {
    chrono::Utc::now().to_string()
}

impl Logger {
    pub fn new(level: usize) -> (logger: Logger)
        ensures
            logger.level == level,
    {
        Logger { level }
    }

    /// Whether a line of this level, filed under `target`, is written.
    pub open spec fn lets_through(&self, level: LogLevel, target: Seq<char>) -> bool {
        level_number(level) <= self.level && "zenlog"@.is_prefix_of(target)
    }

    /// Whether a line of this level, filed under `target`, is written: its
    /// level is no finer than the severity, and it comes from the daemon
    /// itself.
    pub fn enabled(&self, level: LogLevel, target: &str) -> (yes: bool)
        ensures
            yes == self.lets_through(level, target@),
    {
        level_as_usize(level) <= self.level && starts_with(target, "zenlog")
    }

    /// The line for `entry`, written by process `pid` at the time `now`.
    pub fn line(now: &str, pid: i32, entry: &Entry) -> (line: String)
        ensures
            line@ == log_line(now@, pid, *entry),
    {
        let grey = ansi_fg(2, 2, 2);
        let mut line = String::new();
        line.append(grey.as_str());
        line.append(" ");
        line.append(now);
        line.append(" ");
        line.append(color(entry.level).as_str());
        let name = level_as_str(entry.level);
        proof {
            reveal_strlit("ERROR");
            reveal_strlit("WARN");
            reveal_strlit("INFO");
            reveal_strlit("DEBUG");
            reveal_strlit("TRACE");
        }
        line.append(name.substring_char(0, 1));
        assert(name@.subrange(0, 1) =~= seq![level_name(entry.level)[0]]);
        line.append(" ");
        push_signed_decimal(&mut line, pid as i64);
        line.append("/");
        line.append(entry.module);
        line.append(":");
        push_left_aligned(&mut line, decimal_string(entry.line as u64).as_str(), 4);
        line.append(grey.as_str());
        line.append(" - ");
        line.append(white_fg());
        line.append(entry.message);
        line.append(reset_fg());
        line.append("\n");
        assert(line@ =~= log_line(now@, pid, *entry));
        line
    }

    /// The line to write for `entry`, with the time of the call in it;
    /// nothing where the entry is not let through.
    pub fn log(&self, pid: i32, entry: &Entry) -> (line: Option<String>)
        ensures
            match line {
                Some(line) => self.lets_through(entry.level, entry.target@) && exists|
                    now: Seq<char>,
                |
                    line@ == log_line(now, pid, *entry),
                None => !self.lets_through(entry.level, entry.target@),
            },
    {
        if self.enabled(entry.level, entry.target) {
            let now = utc_now();
            Some(Logger::line(now.as_str(), pid, entry))
        } else {
            None
        }
    }
}

/// Initializes the logging system: the logger to install for `level`, or the
/// refusal of a severity that stands for no level.
pub fn init<T: ?Sized + AsLogLevel>(level: &T) -> (logger: Result<Logger, InitError>)
    ensures
        match level.level() {
            Some(named) => logger == Ok::<Logger, InitError>(
                Logger { level: level_number(named) as usize },
            ),
            None => logger == Err::<Logger, InitError>(InitError::InvalidSeverity),
        },
{
    match level.as_level() {
        Some(named) => Ok(Logger::new(level_as_usize(named))),
        None => Err(InitError::InvalidSeverity),
    }
}

} // verus!
