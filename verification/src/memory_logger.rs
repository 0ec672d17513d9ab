//! The log events of memory monitoring, and the events handed to an outside
//! log service.

use crate::logging::{
    decimal_text, detail_view, event_severity, external_severity, get_logger, get_severity_level,
    push_decimal, push_number, LogEntry, Logger,
};
use crate::stats::{full_wipe, StorageStats};
use vstd::prelude::*;
use vstd::string::*;

verus! {

/// Where events for an outside log service are sent.
#[derive(Debug, Clone)]
pub struct ExternalLogger {
    webhook_url: String,
}

impl ExternalLogger {
    /// The address that events are sent to.
    pub closed spec fn url(&self) -> Seq<char> {
        self.webhook_url@
    }

    /// A logger without an address: events for it are kept local until one is
    /// set with `with_url`.
    pub fn new() -> (logger: Self)
        ensures
            logger.url() == Seq::<char>::empty(),
    {
        ExternalLogger { webhook_url: String::new() }
    }

    /// A logger that sends to `webhook_url`.
    pub fn with_url(webhook_url: &str) -> (logger: Self)
        ensures
            logger.url() == webhook_url@,
    {
        ExternalLogger { webhook_url: String::from_str(webhook_url) }
    }

    /// The address that events are sent to.
    pub fn webhook_url(&self) -> (url: &str)
        ensures
            url@ == self.url(),
    {
        self.webhook_url.as_str()
    }
}

/// A logger for the outside log service.
pub fn get_discord_logger() -> (logger: ExternalLogger)
    ensures
        logger.url() == Seq::<char>::empty(),
{
    ExternalLogger::new()
}

/// One event for the outside log service.
#[derive(Debug, Clone)]
pub struct ExternalEvent {
    pub event_type: String,
    pub message: String,
    pub detailed_data: Option<String>,
    pub severity: String,
    pub webhook_url: String,
}

/// The event that the outside log service is sent for a memory event.
pub fn external_event(
    event_type: &str,
    message: &str,
    detailed_data: Option<String>,
    logger: &ExternalLogger,
) -> (event: ExternalEvent)
    ensures
        event.event_type@ == event_type@,
        event.message@ == message@,
        detail_view(event.detailed_data) == detail_view(detailed_data),
        event.severity@ == external_severity(event_type@),
        event.webhook_url@ == logger.url(),
{
    ExternalEvent {
        event_type: String::from_str(event_type),
        message: String::from_str(message),
        detailed_data,
        severity: String::from_str(get_severity_level(event_type)),
        webhook_url: String::from_str(logger.webhook_url()),
    }
}

/// The source of the log events of memory monitoring.
#[derive(Debug, Clone)]
pub struct MemoryLogger {
    logger: Logger,
}

impl MemoryLogger {
    /// The module that the events are logged under.
    pub closed spec fn module(&self) -> Seq<char> {
        self.logger.module@
    }

    /// A logger of the module "memory_monitoring".
    pub fn new() -> (logger: Self)
        ensures
            logger.module() == "memory_monitoring"@,
    {
        MemoryLogger { logger: get_logger("memory_monitoring") }
    }

    /// The memory event with the given parts, with the severity of its kind.
    pub fn log_memory_event(&self, event_type: &str, message: &str, detailed_data: Option<String>)
        -> (entry: LogEntry)
        ensures
            entry.is(
                event_severity(event_type@),
                event_type@,
                self.module(),
                message@,
                detail_view(detailed_data),
            ),
    {
        self.logger.event(event_type, message, detailed_data)
    }

    /// The memory event with the given parts, and the event that the outside
    /// log service is sent for it.
    pub fn log_memory_event_with_webhook(
        &self,
        event_type: &str,
        message: &str,
        detailed_data: Option<String>,
    ) -> (events: (LogEntry, ExternalEvent))
        ensures
            events.0.is(
                event_severity(event_type@),
                event_type@,
                self.module(),
                message@,
                detail_view(detailed_data),
            ),
            events.1.event_type@ == event_type@,
            events.1.message@ == message@,
            detail_view(events.1.detailed_data) == detail_view(detailed_data),
            events.1.severity@ == external_severity(event_type@),
            events.1.webhook_url@ == Seq::<char>::empty(),
    {
        let copy = match &detailed_data {
            Some(text) => Some(text.clone()),
            None => None,
        };
        let entry = self.log_memory_event(event_type, message, copy);
        let discord_logger = get_discord_logger();
        let event = external_event(event_type, message, detailed_data, &discord_logger);
        (entry, event)
    }
}

/// A logger of memory monitoring.
pub fn get_memory_logger() -> (logger: MemoryLogger)
    ensures
        logger.module() == "memory_monitoring"@,
{
    MemoryLogger::new()
}

/// The sum of the three counts.
pub open spec fn total_items(stats: StorageStats) -> nat {
    (stats.document_count + stats.institution_count + stats.user_profile_count) as nat
}

/// The counts in words, with their sum.
pub open spec fn memory_stats_text(stats: StorageStats) -> Seq<char> {
    "Memory stats: documents="@ + decimal_text(stats.document_count as nat) + ", institutions="@
        + decimal_text(stats.institution_count as nat) + ", user_profiles="@ + decimal_text(
        stats.user_profile_count as nat,
    ) + ", total="@ + decimal_text(total_items(stats))
}

/// The statistics, field by field, as the detail of an event.
pub open spec fn stats_detail_text(stats: StorageStats) -> Seq<char> {
    "Stats: StorageStats { document_count: "@ + decimal_text(stats.document_count as nat)
        + ", institution_count: "@ + decimal_text(stats.institution_count as nat)
        + ", user_profile_count: "@ + decimal_text(stats.user_profile_count as nat)
        + ", total_file_size_bytes: "@ + decimal_text(stats.total_file_size_bytes as nat) + " }"@
}

/// What a wipe check says, in words.
pub open spec fn wipe_message(check_type: Seq<char>, outside_only: bool, stats: StorageStats)
    -> Seq<char> {
    if outside_only {
        if full_wipe(stats) {
            "\u{1F6A8} "@ + check_type + ": MEMORY WIPE DETECTED - All storage is empty!"@
        } else {
            "\u{2705} "@ + check_type + ": Memory appears intact. Total items: "@ + decimal_text(
                total_items(stats),
            )
        }
    } else {
        if full_wipe(stats) {
            "MEMORY WIPE DETECTED: All storage is empty!"@
        } else {
            "Memory appears intact. Total items: "@ + decimal_text(total_items(stats))
        }
    }
}

/// The kind of the event that a wipe check sends to the outside log service.
pub open spec fn wipe_event_type(check_type: Seq<char>, outside_only: bool, stats: StorageStats)
    -> Seq<char> {
    if outside_only {
        if full_wipe(stats) {
            check_type + " - WIPE DETECTED"@
        } else {
            check_type + " - OK"@
        }
    } else {
        if full_wipe(stats) {
            check_type + "_MEMORY_WIPE_CHECK"@
        } else {
            check_type + "_MEMORY_CHECK"@
        }
    }
}

/// What a wipe check found and what it wants logged.
#[derive(Debug, Clone)]
pub struct WipeCheck {
    /// What the check says, in words.
    pub message: String,
    /// Whether all three primary collections are empty.
    pub is_wiped: bool,
    /// The events for the local log, in order.
    pub entries: Vec<LogEntry>,
    /// The event for the outside log service.
    pub outside: ExternalEvent,
}

fn stats_detail(stats: &StorageStats) -> (text: String)
    ensures
        text@ == stats_detail_text(*stats),
{
    let mut text = String::from_str("Stats: StorageStats { document_count: ");
    push_decimal(&mut text, stats.document_count);
    text.append(", institution_count: ");
    push_decimal(&mut text, stats.institution_count);
    text.append(", user_profile_count: ");
    push_decimal(&mut text, stats.user_profile_count);
    text.append(", total_file_size_bytes: ");
    push_decimal(&mut text, stats.total_file_size_bytes);
    text.append(" }");
    text
}

/// Checks the statistics for a wipe: all three counts zero. With
/// `use_discord_only` the finding goes to the outside log service alone;
/// otherwise three events go to the local log as well: that the check was
/// called, the counts, and the finding.
pub fn perform_memory_wipe_check(check_type: &str, use_discord_only: bool, stats: &StorageStats)
    -> (check: WipeCheck)
    ensures
        check.is_wiped == full_wipe(*stats),
        check.message@ == wipe_message(check_type@, use_discord_only, *stats),
        check.outside.event_type@ == wipe_event_type(check_type@, use_discord_only, *stats),
        check.outside.message@ == check.message@,
        detail_view(check.outside.detailed_data) == Some(stats_detail_text(*stats)),
        check.outside.severity@ == external_severity(check.outside.event_type@),
        use_discord_only ==> check.entries@.len() == 0,
        !use_discord_only ==> check.entries@.len() == 3 && check.entries@[0].is(
            event_severity(check_type@ + "_MEMORY_WIPE_CHECK"@),
            check_type@ + "_MEMORY_WIPE_CHECK"@,
            "memory_monitoring"@,
            check_type@ + " function called"@,
            None,
        ) && check.entries@[1].is(
            event_severity(check_type@ + "_MEMORY_WIPE_CHECK"@),
            check_type@ + "_MEMORY_WIPE_CHECK"@,
            "memory_monitoring"@,
            memory_stats_text(*stats),
            None,
        ) && check.entries@[2].is(
            event_severity(check.outside.event_type@),
            check.outside.event_type@,
            "memory_monitoring"@,
            check.message@,
            Some(stats_detail_text(*stats)),
        ),
{
    let total: u128 = stats.document_count as u128 + stats.institution_count as u128
        + stats.user_profile_count as u128;
    let is_wiped = total == 0;
    let mut entries: Vec<LogEntry> = Vec::new();
    if use_discord_only {
        let discord_logger = get_discord_logger();
        let mut event_type = String::from_str(check_type);
        let mut message;
        if is_wiped {
            message = String::from_str("\u{1F6A8} ");
            message.append(check_type);
            message.append(": MEMORY WIPE DETECTED - All storage is empty!");
            event_type.append(" - WIPE DETECTED");
        } else {
            message = String::from_str("\u{2705} ");
            message.append(check_type);
            message.append(": Memory appears intact. Total items: ");
            push_number(&mut message, total);
            event_type.append(" - OK");
        }
        let outside = external_event(
            event_type.as_str(),
            message.as_str(),
            Some(stats_detail(stats)),
            &discord_logger,
        );
        WipeCheck { message, is_wiped, entries, outside }
    } else {
        let memory_logger = get_memory_logger();
        let mut called_type = String::from_str(check_type);
        called_type.append("_MEMORY_WIPE_CHECK");
        let mut called = String::from_str(check_type);
        called.append(" function called");
        entries.push(memory_logger.log_memory_event(called_type.as_str(), called.as_str(), None));
        let mut counts = String::from_str("Memory stats: documents=");
        push_decimal(&mut counts, stats.document_count);
        counts.append(", institutions=");
        push_decimal(&mut counts, stats.institution_count);
        counts.append(", user_profiles=");
        push_decimal(&mut counts, stats.user_profile_count);
        counts.append(", total=");
        push_number(&mut counts, total);
        entries.push(memory_logger.log_memory_event(called_type.as_str(), counts.as_str(), None));
        let mut event_type = String::from_str(check_type);
        let mut message;
        if is_wiped {
            message = String::from_str("MEMORY WIPE DETECTED: All storage is empty!");
            event_type.append("_MEMORY_WIPE_CHECK");
        } else {
            message = String::from_str("Memory appears intact. Total items: ");
            push_number(&mut message, total);
            event_type.append("_MEMORY_CHECK");
        }
        let (entry, outside) = memory_logger.log_memory_event_with_webhook(
            event_type.as_str(),
            message.as_str(),
            Some(stats_detail(stats)),
        );
        entries.push(entry);
        WipeCheck { message, is_wiped, entries, outside }
    }
}

} // verus!
