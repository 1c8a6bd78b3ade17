//! The log writer: which kinds of entries are written, and the line that
//! an entry makes.  The file of each domain, and the printing, stay with
//! the caller, which appends the lines that the writer gives.
use vstd::prelude::*;
use crate::time::{now_formatted, LOG_TIME_FMT};

verus! {

#[derive(Clone, Copy, Debug, PartialEq, Eq, Structural)]
pub enum LogLevel {
    HIGH,
    MEDIUM,
    LOW,
}

#[derive(Clone, Copy, Debug, PartialEq, Eq, Structural)]
pub enum LogType {
    DEBUG,
    INFO,
    WARN,
    ERROR,
}

/// The name of a level, as it appears in a line.
pub open spec fn level_name(l: LogLevel) -> Seq<char> {
    match l {
        LogLevel::HIGH => "HIGH"@,
        LogLevel::MEDIUM => "MEDIUM"@,
        LogLevel::LOW => "LOW"@,
    }
}

/// The name of a kind of entry, as it appears in a line.
pub open spec fn kind_name(t: LogType) -> Seq<char> {
    match t {
        LogType::DEBUG => "DEBUG"@,
        LogType::INFO => "INFO"@,
        LogType::WARN => "WARN"@,
        LogType::ERROR => "ERROR"@,
    }
}

/// The line of an entry: the time, the kind and the level in brackets,
/// then the message, separated by spaces.
pub open spec fn log_line(time: Seq<char>, msg: Seq<char>, t: LogType, l: LogLevel) -> Seq<char> {
    time + " ["@ + kind_name(t) + "] ["@ + level_name(l) + "] "@ + msg
}

impl LogLevel {
    pub fn name(&self) -> (r: &'static str)
        ensures
            r@ == level_name(*self),
    {
        match self {
            LogLevel::HIGH => "HIGH",
            LogLevel::MEDIUM => "MEDIUM",
            LogLevel::LOW => "LOW",
        }
    }
}

impl LogType {
    pub fn name(&self) -> (r: &'static str)
        ensures
            r@ == kind_name(*self),
    {
        match self {
            LogType::DEBUG => "DEBUG",
            LogType::INFO => "INFO",
            LogType::WARN => "WARN",
            LogType::ERROR => "ERROR",
        }
    }
}

/// The value of a [`LogWritter`]: which kinds of entries it writes.
pub struct LogWritterView {
    pub debug_enabled: bool,
    pub info_enabled: bool,
    pub warn_enabled: bool,
    pub error_enabled: bool,
}

/// Whether entries of the kind are written.
pub open spec fn type_enabled(v: LogWritterView, t: LogType) -> bool {
    match t {
        LogType::DEBUG => v.debug_enabled,
        LogType::INFO => v.info_enabled,
        LogType::WARN => v.warn_enabled,
        LogType::ERROR => v.error_enabled,
    }
}

/// The log writer.
#[derive(Debug)]
pub struct LogWritter {
    debug_enabled: bool,
    info_enabled: bool,
    warn_enabled: bool,
    error_enabled: bool,
}

impl View for LogWritter {
    type V = LogWritterView;

    closed spec fn view(&self) -> LogWritterView {
        LogWritterView {
            debug_enabled: self.debug_enabled,
            info_enabled: self.info_enabled,
            warn_enabled: self.warn_enabled,
            error_enabled: self.error_enabled,
        }
    }
}

impl LogWritter {
    /// A writer of every kind of entry.
    pub fn new() -> (r: Self)
        ensures
            r@ == (LogWritterView { debug_enabled: true, info_enabled: true, warn_enabled: true, error_enabled: true }),
    {
        LogWritter { debug_enabled: true, info_enabled: true, warn_enabled: true, error_enabled: true }
    }

    pub fn enabled_debug(&mut self, on: bool)
        ensures
            final(self)@ == (LogWritterView { debug_enabled: on, ..old(self)@ }),
    {
        self.debug_enabled = on;
    }

    pub fn enabled_info(&mut self, on: bool)
        ensures
            final(self)@ == (LogWritterView { info_enabled: on, ..old(self)@ }),
    {
        self.info_enabled = on;
    }

    pub fn enabled_warn(&mut self, on: bool)
        ensures
            final(self)@ == (LogWritterView { warn_enabled: on, ..old(self)@ }),
    {
        self.warn_enabled = on;
    }

    pub fn enabled_error(&mut self, on: bool)
        ensures
            final(self)@ == (LogWritterView { error_enabled: on, ..old(self)@ }),
    {
        self.error_enabled = on;
    }

    /// The line of an entry written at the time given.
    pub fn format_line(time: &str, msg: &str, log_type: LogType, log_level: LogLevel) -> (r: String)
        ensures
            r@ == log_line(time@, msg@, log_type, log_level),
    {
        let mut s = String::from_str(time);
        s.append(" [");
        s.append(log_type.name());
        s.append("] [");
        s.append(log_level.name());
        s.append("] ");
        s.append(msg);
        s
    }

    /// The line of an entry written now: the current time, whose text
    /// nothing states, then the kind, the level and the message.
    pub fn gen_format(msg: &str, log_type: LogType, log_level: LogLevel) -> (r: String)
        ensures
            exists|time: Seq<char>| r@ == #[trigger] log_line(time, msg@, log_type, log_level),
    {
        let time = now_formatted(LOG_TIME_FMT);
        Self::format_line(time.as_str(), msg, log_type, log_level)
    }

    /// The line to append to the file of the domain for an entry of the
    /// kind, at the level: none when entries of the kind are not written.
    pub fn entry(&self, msg: &str, log_type: LogType, log_level: LogLevel) -> (r: Option<String>)
        ensures
            r is None <==> !type_enabled(self@, log_type),
            r matches Some(line) ==> exists|time: Seq<char>| line@ == #[trigger] log_line(time, msg@, log_type, log_level),
    {
        let on = match log_type {
            LogType::DEBUG => self.debug_enabled,
            LogType::INFO => self.info_enabled,
            LogType::WARN => self.warn_enabled,
            LogType::ERROR => self.error_enabled,
        };
        if on {
            Some(Self::gen_format(msg, log_type, log_level))
        } else {
            None
        }
    }

    pub fn debug_with_level(&self, msg: &str, log_level: LogLevel) -> (r: Option<String>)
        ensures
            r is None <==> !self@.debug_enabled,
            r matches Some(line) ==> exists|time: Seq<char>| line@ == #[trigger] log_line(time, msg@, LogType::DEBUG, log_level),
    {
        self.entry(msg, LogType::DEBUG, log_level)
    }

    pub fn debug(&self, msg: &str) -> (r: Option<String>)
        ensures
            r is None <==> !self@.debug_enabled,
            r matches Some(line) ==> exists|time: Seq<char>| line@ == #[trigger] log_line(time, msg@, LogType::DEBUG, LogLevel::LOW),
    {
        self.entry(msg, LogType::DEBUG, LogLevel::LOW)
    }

    pub fn info_with_level(&self, msg: &str, log_level: LogLevel) -> (r: Option<String>)
        ensures
            r is None <==> !self@.info_enabled,
            r matches Some(line) ==> exists|time: Seq<char>| line@ == #[trigger] log_line(time, msg@, LogType::INFO, log_level),
    {
        self.entry(msg, LogType::INFO, log_level)
    }

    pub fn info(&self, msg: &str) -> (r: Option<String>)
        ensures
            r is None <==> !self@.info_enabled,
            r matches Some(line) ==> exists|time: Seq<char>| line@ == #[trigger] log_line(time, msg@, LogType::INFO, LogLevel::LOW),
    {
        self.entry(msg, LogType::INFO, LogLevel::LOW)
    }

    pub fn warn_with_level(&self, msg: &str, log_level: LogLevel) -> (r: Option<String>)
        ensures
            r is None <==> !self@.warn_enabled,
            r matches Some(line) ==> exists|time: Seq<char>| line@ == #[trigger] log_line(time, msg@, LogType::WARN, log_level),
    {
        self.entry(msg, LogType::WARN, log_level)
    }

    pub fn warn(&self, msg: &str) -> (r: Option<String>)
        ensures
            r is None <==> !self@.warn_enabled,
            r matches Some(line) ==> exists|time: Seq<char>| line@ == #[trigger] log_line(time, msg@, LogType::WARN, LogLevel::LOW),
    {
        self.entry(msg, LogType::WARN, LogLevel::LOW)
    }

    pub fn error_with_level(&self, msg: &str, log_level: LogLevel) -> (r: Option<String>)
        ensures
            r is None <==> !self@.error_enabled,
            r matches Some(line) ==> exists|time: Seq<char>| line@ == #[trigger] log_line(time, msg@, LogType::ERROR, log_level),
    {
        self.entry(msg, LogType::ERROR, log_level)
    }

    pub fn error(&self, msg: &str) -> (r: Option<String>)
        ensures
            r is None <==> !self@.error_enabled,
            r matches Some(line) ==> exists|time: Seq<char>| line@ == #[trigger] log_line(time, msg@, LogType::ERROR, LogLevel::LOW),
    {
        self.entry(msg, LogType::ERROR, LogLevel::LOW)
    }
}

} // verus!
