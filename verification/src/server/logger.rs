//! Log levels and the decision of what gets logged; printing the lines
//! (with time stamps and colours) is left to the program.
use vstd::prelude::*;
use crate::text::owned;

verus! {

/// The severity of a log line, from the most to the least severe.
#[derive(Debug, Clone, Copy, PartialEq, Eq, Structural)]
pub enum LogLevel {
    ERROR,
    WARN,
    INFO,
    DEBUG,
    TRACE,
}

impl LogLevel {
    /// The position of the level in the order from `ERROR` to `TRACE`.
    pub open spec fn spec_rank(self) -> u8 {
        match self {
            LogLevel::ERROR => 0,
            LogLevel::WARN => 1,
            LogLevel::INFO => 2,
            LogLevel::DEBUG => 3,
            LogLevel::TRACE => 4,
        }
    }

    pub fn rank(&self) -> (r: u8)
        ensures
            r == self.spec_rank(),
    {
        match self {
            LogLevel::ERROR => 0,
            LogLevel::WARN => 1,
            LogLevel::INFO => 2,
            LogLevel::DEBUG => 3,
            LogLevel::TRACE => 4,
        }
    }
}

/// A line to log: its level, its message and the module it concerns.
#[derive(Debug)]
pub struct LogRecord {
    pub level: LogLevel,
    pub message: String,
    pub module: String,
}

/// A log line is viewed as its level, its message and its module.
impl View for LogRecord {
    type V = (LogLevel, Seq<char>, Seq<char>);

    open spec fn view(&self) -> (LogLevel, Seq<char>, Seq<char>) {
        (self.level, self.message@, self.module@)
    }
}

/// The views of a list of log lines.
pub open spec fn lines(v: Seq<LogRecord>) -> Seq<(LogLevel, Seq<char>, Seq<char>)> {
    v.map_values(|r: LogRecord| r@)
}

/// Logs the lines at its level and the more severe ones.
#[derive(Debug)]
pub struct Logger {
    pub level: LogLevel,
}

impl Logger {
    pub fn new(level: LogLevel) -> (r: Self)
        ensures
            r.level == level,
    {
        Logger { level }
    }

    /// The line to print for a message of the given level about a module,
    /// when that level is logged.
    pub fn log(&self, level: LogLevel, message: &str, module: &str) -> (r: Option<LogRecord>)
        ensures
            (level.spec_rank() <= self.level.spec_rank()) ==> (r matches Some(rec) && rec@ == (level, message@, module@)),
            !(level.spec_rank() <= self.level.spec_rank()) ==> r is None,
    {
        if self.enabled(level) {
            Some(LogRecord { level, message: owned(message), module: owned(module) })
        } else {
            None
        }
    }

    pub fn error(&self, message: &str, module: &str) -> (r: Option<LogRecord>)
        ensures
            r matches Some(rec) && rec@ == (LogLevel::ERROR, message@, module@),
    {
        self.log(LogLevel::ERROR, message, module)
    }

    pub fn warn(&self, message: &str, module: &str) -> (r: Option<LogRecord>)
        ensures
            (LogLevel::WARN.spec_rank() <= self.level.spec_rank()) <==> (r matches Some(rec) && rec@ == (LogLevel::WARN, message@, module@)),
            r is None <==> !(LogLevel::WARN.spec_rank() <= self.level.spec_rank()),
    {
        self.log(LogLevel::WARN, message, module)
    }

    pub fn info(&self, message: &str, module: &str) -> (r: Option<LogRecord>)
        ensures
            r is None <==> !(LogLevel::INFO.spec_rank() <= self.level.spec_rank()),
            r matches Some(rec) ==> rec@ == (LogLevel::INFO, message@, module@),
    {
        self.log(LogLevel::INFO, message, module)
    }

    pub fn debug(&self, message: &str, module: &str) -> (r: Option<LogRecord>)
        ensures
            r is None <==> !(LogLevel::DEBUG.spec_rank() <= self.level.spec_rank()),
            r matches Some(rec) ==> rec@ == (LogLevel::DEBUG, message@, module@),
    {
        self.log(LogLevel::DEBUG, message, module)
    }

    pub fn trace(&self, message: &str, module: &str) -> (r: Option<LogRecord>)
        ensures
            r is None <==> self.level != LogLevel::TRACE,
            r matches Some(rec) ==> rec@ == (LogLevel::TRACE, message@, module@),
    {
        self.log(LogLevel::TRACE, message, module)
    }

    /// Whether a line of the given level is logged.
    pub fn enabled(&self, level: LogLevel) -> (r: bool)
        ensures
            r == (level.spec_rank() <= self.level.spec_rank()),
    {
        level.rank() <= self.level.rank()
    }
}

} // verus!
