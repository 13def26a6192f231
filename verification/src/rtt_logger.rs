//! The firmware's logger: the level filter set at build time from `LOG_LEVEL`, and the
//! coloured lines it writes to the RTT channel.
use crate::text::bytes_equal;
use vstd::prelude::*;

verus! {

/// The level of a log record, most severe first.
#[derive(PartialEq, Eq, Structural, Clone, Copy, Debug)]
pub enum Level {
    Error,
    Warn,
    Info,
    Debug,
    Trace,
}

/// The most verbose level let through, or none.
#[derive(PartialEq, Eq, Structural, Clone, Copy, Debug)]
pub enum LevelFilter {
    Off,
    Error,
    Warn,
    Info,
    Debug,
    Trace,
}

/// The rank of a level: 1 (error) to 5 (trace), as `log` numbers them.
pub open spec fn level_rank(level: Level) -> int {
    match level {
        Level::Error => 1,
        Level::Warn => 2,
        Level::Info => 3,
        Level::Debug => 4,
        Level::Trace => 5,
    }
}

/// The rank of a filter: 0 (off) to 5 (trace), as `log` numbers them.
pub open spec fn filter_rank(filter: LevelFilter) -> int {
    match filter {
        LevelFilter::Off => 0,
        LevelFilter::Error => 1,
        LevelFilter::Warn => 2,
        LevelFilter::Info => 3,
        LevelFilter::Debug => 4,
        LevelFilter::Trace => 5,
    }
}


/// The level filter named by a `LOG_LEVEL` setting; any other value means `info`.
pub open spec fn parse_log_level_spec(s: Seq<u8>) -> LevelFilter {
    if s == seq![101u8, 114, 114, 111, 114] {
        LevelFilter::Error
    } else if s == seq![119u8, 97, 114, 110] {
        LevelFilter::Warn
    } else if s == seq![105u8, 110, 102, 111] {
        LevelFilter::Info
    } else if s == seq![100u8, 101, 98, 117, 103] {
        LevelFilter::Debug
    } else if s == seq![116u8, 114, 97, 99, 101] {
        LevelFilter::Trace
    } else {
        LevelFilter::Info
    }
}

/// Reads a `LOG_LEVEL` setting: `error`, `warn`, `info`, `debug` or `trace`; anything else
/// means `info`.
pub fn parse_log_level(s: &[u8]) -> (f: LevelFilter)
    ensures
        f == parse_log_level_spec(s@),
{
    // "error", "warn", "info", "debug", "trace"
    let error: [u8; 5] = [101, 114, 114, 111, 114];
    let warn: [u8; 4] = [119, 97, 114, 110];
    let info: [u8; 4] = [105, 110, 102, 111];
    let debug: [u8; 5] = [100, 101, 98, 117, 103];
    let trace: [u8; 5] = [116, 114, 97, 99, 101];
    assert(error@ =~= seq![101u8, 114, 114, 111, 114]);
    assert(warn@ =~= seq![119u8, 97, 114, 110]);
    assert(info@ =~= seq![105u8, 110, 102, 111]);
    assert(debug@ =~= seq![100u8, 101, 98, 117, 103]);
    assert(trace@ =~= seq![116u8, 114, 97, 99, 101]);
    if bytes_equal(s, &error) {
        LevelFilter::Error
    } else if bytes_equal(s, &warn) {
        LevelFilter::Warn
    } else if bytes_equal(s, &info) {
        LevelFilter::Info
    } else if bytes_equal(s, &debug) {
        LevelFilter::Debug
    } else if bytes_equal(s, &trace) {
        LevelFilter::Trace
    } else {
        LevelFilter::Info
    }
}

/// The filter of the build: `LOG_LEVEL` when it is set, else `info`.
pub fn log_level(setting: Option<&[u8]>) -> (f: LevelFilter)
    ensures
        f == match setting {
            Some(s) => parse_log_level_spec(s@),
            None => LevelFilter::Info,
        },
{
    match setting {
        Some(s) => parse_log_level(s),
        None => LevelFilter::Info,
    }
}

/// The name `log` displays for a level.
pub open spec fn level_name(level: Level) -> Seq<char> {
    match level {
        Level::Error => "ERROR"@,
        Level::Warn => "WARN"@,
        Level::Info => "INFO"@,
        Level::Debug => "DEBUG"@,
        Level::Trace => "TRACE"@,
    }
}

/// The ANSI colour of a level.
pub open spec fn level_color(level: Level) -> Seq<char> {
    match level {
        Level::Error => "\x1B[31m"@,
        Level::Warn => "\x1B[33m"@,
        Level::Info => "\x1B[32m"@,
        Level::Debug => "\x1B[36m"@,
        Level::Trace => "\x1B[90m"@,
    }
}

/// The ANSI sequence that resets the colour.
pub open spec fn color_reset() -> Seq<char> {
    "\x1B[0m"@
}

/// The line written for a record: `{color}[{level}]{reset} {target} - {message}`.
pub open spec fn log_line(level: Level, target: Seq<char>, message: Seq<char>) -> Seq<char> {
    level_color(level) + "["@ + level_name(level) + "]"@ + color_reset() + " "@ + target + " - "@
        + message
}

/// The RTT logger: records at or above its level are written, coloured by level.
pub struct RttLogger {
    level: LevelFilter,
}

impl RttLogger {
    /// The logger's filter.
    pub closed spec fn filter(&self) -> LevelFilter {
        self.level
    }

    /// A logger that lets through records up to `level`.
    pub fn new(level: LevelFilter) -> (l: Self)
        ensures
            l.filter() == level,
    {
        RttLogger { level }
    }

    /// The logger's filter, for the `log` crate's maximum level.
    pub fn level(&self) -> (f: LevelFilter)
        ensures
            f == self.filter(),
    {
        self.level
    }

    /// Whether a record at `level` is written: `level <= filter` in `log`'s order.
    pub fn enabled(&self, level: Level) -> (b: bool)
        ensures
            b == (level_rank(level) <= filter_rank(self.filter())),
    {
        let rank: u8 = match level {
            Level::Error => 1,
            Level::Warn => 2,
            Level::Info => 3,
            Level::Debug => 4,
            Level::Trace => 5,
        };
        let max: u8 = match self.level {
            LevelFilter::Off => 0,
            LevelFilter::Error => 1,
            LevelFilter::Warn => 2,
            LevelFilter::Info => 3,
            LevelFilter::Debug => 4,
            LevelFilter::Trace => 5,
        };
        rank <= max
    }

    /// The ANSI colour of a level.
    pub fn color_for(level: Level) -> (s: &'static str)
        ensures
            s@ == level_color(level),
    {
        match level {
            Level::Error => "\x1B[31m",  // Red
            Level::Warn => "\x1B[33m",  // Yellow
            Level::Info => "\x1B[32m",  // Green
            Level::Debug => "\x1B[36m",  // Cyan
            Level::Trace => "\x1B[90m",  // Bright Black (gray)
        }
    }

    /// The line to write for a record at `level` from `target`, or `None` when the filter
    /// drops it.
    pub fn line(&self, level: Level, target: &str, message: &str) -> (r: Option<String>)
        ensures
            match r {
                Some(line) => level_rank(level) <= filter_rank(self.filter()) && line@ == log_line(
                    level,
                    target@,
                    message@,
                ),
                None => level_rank(level) > filter_rank(self.filter()),
            },
    {
        if !self.enabled(level) {
            return None;
        }
        let mut line = String::from_str(Self::color_for(level));
        line.append("[");
        let name = match level {
            Level::Error => "ERROR",
            Level::Warn => "WARN",
            Level::Info => "INFO",
            Level::Debug => "DEBUG",
            Level::Trace => "TRACE",
        };
        line.append(name);
        line.append("]");
        line.append("\x1B[0m");
        line.append(" ");
        line.append(target);
        line.append(" - ");
        line.append(message);
        Some(line)
    }
}

} // verus!
