//! Structured log events. Nothing here prints: every function returns the
//! event it describes, and the caller decides where it goes.

use crate::access::{lemma_text_bytes_injective, same_bytes};
use vstd::prelude::*;
use vstd::string::*;

verus! {

/// How grave a log event is.
#[derive(Debug, Clone, Copy, PartialEq, Eq, Structural)]
pub enum LogSeverity {
    Critical,
    Warning,
    Info,
    Debug,
}

impl LogSeverity {
    /// The name of the severity in capitals.
    pub fn as_str(&self) -> (name: &'static str)
        ensures
            name@ == severity_name(*self),
    {
        match self {
            LogSeverity::Critical => "CRITICAL",
            LogSeverity::Warning => "WARNING",
            LogSeverity::Info => "INFO",
            LogSeverity::Debug => "DEBUG",
        }
    }
}

/// The name of a severity in capitals.
pub open spec fn severity_name(severity: LogSeverity) -> Seq<char> {
    match severity {
        LogSeverity::Critical => "CRITICAL"@,
        LogSeverity::Warning => "WARNING"@,
        LogSeverity::Info => "INFO"@,
        LogSeverity::Debug => "DEBUG"@,
    }
}

/// Whether two texts are the same.
pub fn text_is(a: &str, b: &str) -> (same: bool)
    ensures
        same == (a@ == b@),
{
    proof {
        lemma_text_bytes_injective(a@, b@);
    }
    same_bytes(a.as_bytes(), b.as_bytes())
}

/// The decimal digit `d` as a character.
pub open spec fn digit_char(d: nat) -> char {
    if d == 0 {
        '0'
    } else if d == 1 {
        '1'
    } else if d == 2 {
        '2'
    } else if d == 3 {
        '3'
    } else if d == 4 {
        '4'
    } else if d == 5 {
        '5'
    } else if d == 6 {
        '6'
    } else if d == 7 {
        '7'
    } else if d == 8 {
        '8'
    } else {
        '9'
    }
}

/// The decimal numeral of `n`, without leading zeros.
pub open spec fn decimal_text(n: nat) -> Seq<char>
    decreases n,
{
    if n < 10 {
        seq![digit_char(n)]
    } else {
        decimal_text(n / 10).push(digit_char(n % 10))
    }
}

fn digit_str(d: u64) -> (text: &'static str)
    requires
        d < 10,
    ensures
        text@ == seq![digit_char(d as nat)],
{
    proof {
        reveal_strlit("0");
        reveal_strlit("1");
        reveal_strlit("2");
        reveal_strlit("3");
        reveal_strlit("4");
        reveal_strlit("5");
        reveal_strlit("6");
        reveal_strlit("7");
        reveal_strlit("8");
        reveal_strlit("9");
    }
    let text = if d == 0 {
        "0"
    } else if d == 1 {
        "1"
    } else if d == 2 {
        "2"
    } else if d == 3 {
        "3"
    } else if d == 4 {
        "4"
    } else if d == 5 {
        "5"
    } else if d == 6 {
        "6"
    } else if d == 7 {
        "7"
    } else if d == 8 {
        "8"
    } else {
        "9"
    };
    assert(text@ =~= seq![digit_char(d as nat)]);
    text
}

/// Appends the decimal numeral of `n` to `out`.
pub fn push_number(out: &mut String, n: u128)
    ensures
        final(out)@ == old(out)@ + decimal_text(n as nat),
    decreases n,
{
    if n >= 10 {
        push_number(out, n / 10);
    }
    out.append(digit_str((n % 10) as u64));
    assert(final(out)@ =~= old(out)@ + decimal_text(n as nat));
}

/// Appends the decimal numeral of `n` to `out`.
pub fn push_decimal(out: &mut String, n: u64)
    ensures
        final(out)@ == old(out)@ + decimal_text(n as nat),
{
    push_number(out, n as u128);
}

/// The severity of each kind of event. Kinds that are not listed are
/// informational.
pub open spec fn event_severity(event_type: Seq<char>) -> LogSeverity {
    if event_type == "POTENTIAL_MEMORY_WIPE"@ || event_type == "MEMORY_WIPE_DETECTED"@
        || event_type == "HEARTBEAT_MEMORY_WIPE_DETECTED"@ || event_type == "SERIALIZATION_ERROR"@
        || event_type == "DESERIALIZATION_ERROR"@ {
        LogSeverity::Critical
    } else if event_type == "MANUAL_MEMORY_WIPE_CHECK"@ || event_type == "MEMORY_ANOMALY"@
        || event_type == "STORAGE_ANOMALY"@ || event_type == "VALIDATION_WARNINGS"@ {
        LogSeverity::Warning
    } else if event_type == "CORRUPTED_DATA"@ || event_type == "VALIDATION_SKIP"@ {
        LogSeverity::Debug
    } else {
        LogSeverity::Info
    }
}

/// The severity of an event of kind `event_type`.
pub fn get_severity_for_event_type(event_type: &str) -> (severity: LogSeverity)
    ensures
        severity == event_severity(event_type@),
{
    if text_is(event_type, "POTENTIAL_MEMORY_WIPE") || text_is(event_type, "MEMORY_WIPE_DETECTED")
        || text_is(event_type, "HEARTBEAT_MEMORY_WIPE_DETECTED") || text_is(
        event_type,
        "SERIALIZATION_ERROR",
    ) || text_is(event_type, "DESERIALIZATION_ERROR") {
        LogSeverity::Critical
    } else if text_is(event_type, "MANUAL_MEMORY_WIPE_CHECK") || text_is(
        event_type,
        "MEMORY_ANOMALY",
    ) || text_is(event_type, "STORAGE_ANOMALY") || text_is(event_type, "VALIDATION_WARNINGS") {
        LogSeverity::Warning
    } else if text_is(event_type, "CORRUPTED_DATA") || text_is(event_type, "VALIDATION_SKIP") {
        LogSeverity::Debug
    } else {
        LogSeverity::Info
    }
}

/// The severity that an outside log service is told for each kind of event.
pub open spec fn external_severity(event_type: Seq<char>) -> Seq<char> {
    if event_type == "POTENTIAL_MEMORY_WIPE"@ || event_type == "MEMORY_WIPE_DETECTED"@ {
        "CRITICAL"@
    } else if event_type == "MANUAL_MEMORY_WIPE_CHECK"@ || event_type == "MEMORY_ANOMALY"@ {
        "WARNING"@
    } else {
        "INFO"@
    }
}

/// The severity that an outside log service is told for an event of kind
/// `event_type`.
pub fn get_severity_level(event_type: &str) -> (level: &'static str)
    ensures
        level@ == external_severity(event_type@),
{
    if text_is(event_type, "POTENTIAL_MEMORY_WIPE") || text_is(event_type, "MEMORY_WIPE_DETECTED") {
        "CRITICAL"
    } else if text_is(event_type, "MANUAL_MEMORY_WIPE_CHECK") || text_is(
        event_type,
        "MEMORY_ANOMALY",
    ) {
        "WARNING"
    } else {
        "INFO"
    }
}

/// One structured log event.
#[derive(Debug, Clone, PartialEq, Eq)]
pub struct LogEntry {
    pub severity: LogSeverity,
    pub event_type: String,
    pub module: String,
    pub message: String,
    pub detailed_data: Option<String>,
}

/// What an optional text holds.
pub open spec fn detail_view(detail: Option<String>) -> Option<Seq<char>> {
    match detail {
        Some(text) => Some(text@),
        None => None,
    }
}

impl LogEntry {
    /// Whether the entry has exactly these parts.
    pub open spec fn is(
        &self,
        severity: LogSeverity,
        event_type: Seq<char>,
        module: Seq<char>,
        message: Seq<char>,
        detail: Option<Seq<char>>,
    ) -> bool {
        &&& self.severity == severity
        &&& self.event_type@ == event_type
        &&& self.module@ == module
        &&& self.message@ == message
        &&& detail_view(self.detailed_data) == detail
    }

    /// The line that the entry is written as.
    pub open spec fn line(&self, timestamp: u64, origin: Seq<char>) -> Seq<char> {
        "["@ + decimal_text(timestamp as nat) + "] "@ + severity_name(self.severity) + " - "@
            + self.event_type@ + " - Module: "@ + self.module@ + " - Canister: "@ + origin
            + " - Message: "@ + self.message@
    }

    /// Writes the entry as one line, stamped with the time and the origin.
    pub fn render(&self, timestamp: u64, origin: &str) -> (text: String)
        ensures
            text@ == self.line(timestamp, origin@),
    {
        let mut text = String::from_str("[");
        push_decimal(&mut text, timestamp);
        text.append("] ");
        text.append(self.severity.as_str());
        text.append(" - ");
        text.append(self.event_type.as_str());
        text.append(" - Module: ");
        text.append(self.module.as_str());
        text.append(" - Canister: ");
        text.append(origin);
        text.append(" - Message: ");
        text.append(self.message.as_str());
        text
    }
}

/// The source of the log events of one module.
#[derive(Debug, Clone)]
pub struct Logger {
    pub module: String,
}

impl Logger {
    /// A logger for `module`.
    pub fn new(module: &str) -> (logger: Self)
        ensures
            logger.module@ == module@,
    {
        Logger { module: String::from_str(module) }
    }

    /// The event with the given parts, from this logger's module.
    pub fn log(
        &self,
        severity: LogSeverity,
        event_type: &str,
        message: &str,
        detailed_data: Option<String>,
    ) -> (entry: LogEntry)
        ensures
            entry.is(severity, event_type@, self.module@, message@, detail_view(detailed_data)),
    {
        LogEntry {
            severity,
            event_type: String::from_str(event_type),
            module: self.module.clone(),
            message: String::from_str(message),
            detailed_data,
        }
    }

    /// The event of kind `event_type`, with the severity of its kind.
    pub fn event(&self, event_type: &str, message: &str, detailed_data: Option<String>) -> (entry:
        LogEntry)
        ensures
            entry.is(
                event_severity(event_type@),
                event_type@,
                self.module@,
                message@,
                detail_view(detailed_data),
            ),
    {
        let severity = get_severity_for_event_type(event_type);
        self.log(severity, event_type, message, detailed_data)
    }
}

/// A logger for `module`.
pub fn get_logger(module: &str) -> (logger: Logger)
    ensures
        logger.module@ == module@,
{
    Logger::new(module)
}

} // verus!
