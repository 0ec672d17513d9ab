//! The log events of the program's life cycle: start, replacement, migration,
//! validation and cleanup.

use crate::logging::{
    decimal_text, detail_view, event_severity, get_logger, push_decimal, LogEntry, Logger,
};
use crate::stats::{full_wipe, StorageStats};
use vstd::prelude::*;
use vstd::string::*;

verus! {

/// The counts of the three primary collections in words, after `prefix`.
pub open spec fn storage_stats_text(
    prefix: Seq<char>,
    documents: u64,
    institutions: u64,
    user_profiles: u64,
) -> Seq<char> {
    prefix + ": "@ + decimal_text(documents as nat) + " documents, "@ + decimal_text(
        institutions as nat,
    ) + " institutions, "@ + decimal_text(user_profiles as nat) + " user profiles"@
}

/// Writes the counts of the three primary collections in words.
pub fn format_storage_stats(prefix: &str, documents: u64, institutions: u64, user_profiles: u64)
    -> (text: String)
    ensures
        text@ == storage_stats_text(prefix@, documents, institutions, user_profiles),
{
    let mut text = String::from_str(prefix);
    text.append(": ");
    push_decimal(&mut text, documents);
    text.append(" documents, ");
    push_decimal(&mut text, institutions);
    text.append(" institutions, ");
    push_decimal(&mut text, user_profiles);
    text.append(" user profiles");
    text
}

/// The source of the life cycle's log events.
#[derive(Debug, Clone)]
pub struct LifecycleLogger {
    logger: Logger,
}

impl LifecycleLogger {
    /// The module that the events are logged under.
    pub closed spec fn module(&self) -> Seq<char> {
        self.logger.module@
    }

    /// A logger of the module "lifecycle".
    pub fn new() -> (logger: Self)
        ensures
            logger.module() == "lifecycle"@,
    {
        LifecycleLogger { logger: get_logger("lifecycle") }
    }

    /// The event that reports the counts under `prefix`, with the counts as
    /// its detail too.
    fn stats_event(&self, event_type: &str, prefix: &str, stats: &StorageStats) -> (entry:
        LogEntry)
        ensures
            entry.is(
                event_severity(event_type@),
                event_type@,
                self.module(),
                storage_stats_text(
                    prefix@,
                    stats.document_count,
                    stats.institution_count,
                    stats.user_profile_count,
                ),
                Some(
                    storage_stats_text(
                        prefix@,
                        stats.document_count,
                        stats.institution_count,
                        stats.user_profile_count,
                    ),
                ),
            ),
    {
        let message = format_storage_stats(
            prefix,
            stats.document_count,
            stats.institution_count,
            stats.user_profile_count,
        );
        let detail = format_storage_stats(
            prefix,
            stats.document_count,
            stats.institution_count,
            stats.user_profile_count,
        );
        self.logger.event(event_type, message.as_str(), Some(detail))
    }

    /// The event of the first start, with the time and the program's own
    /// identity.
    pub fn log_initialization(&self, timestamp: u64, canister_id: &str) -> (entry: LogEntry)
        ensures
            entry.is(
                event_severity("CANISTER_INIT"@),
                "CANISTER_INIT"@,
                self.module(),
                "Canister initialized at timestamp "@ + decimal_text(timestamp as nat),
                Some("Canister ID: "@ + canister_id@),
            ),
    {
        let mut message = String::from_str("Canister initialized at timestamp ");
        push_decimal(&mut message, timestamp);
        let mut detail = String::from_str("Canister ID: ");
        detail.append(canister_id);
        self.logger.event("CANISTER_INIT", message.as_str(), Some(detail))
    }

    /// The event before a replacement: the counts at that moment.
    pub fn log_pre_upgrade(&self, stats: &StorageStats) -> (entry: LogEntry)
        ensures
            entry.is(
                event_severity("PRE_UPGRADE"@),
                "PRE_UPGRADE"@,
                self.module(),
                storage_stats_text(
                    "Pre-upgrade"@,
                    stats.document_count,
                    stats.institution_count,
                    stats.user_profile_count,
                ),
                Some(
                    storage_stats_text(
                        "Pre-upgrade"@,
                        stats.document_count,
                        stats.institution_count,
                        stats.user_profile_count,
                    ),
                ),
            ),
    {
        self.stats_event("PRE_UPGRADE", "Pre-upgrade", stats)
    }

    /// The event after a replacement: the counts at that moment.
    pub fn log_post_upgrade(&self, stats: &StorageStats) -> (entry: LogEntry)
        ensures
            entry.is(
                event_severity("POST_UPGRADE"@),
                "POST_UPGRADE"@,
                self.module(),
                storage_stats_text(
                    "Post-upgrade"@,
                    stats.document_count,
                    stats.institution_count,
                    stats.user_profile_count,
                ),
                Some(
                    storage_stats_text(
                        "Post-upgrade"@,
                        stats.document_count,
                        stats.institution_count,
                        stats.user_profile_count,
                    ),
                ),
            ),
    {
        self.stats_event("POST_UPGRADE", "Post-upgrade", stats)
    }

    /// The event that a wipe is suspected: only when all three counts are zero.
    pub fn log_potential_memory_wipe(&self, stats: &StorageStats) -> (entry: Option<LogEntry>)
        ensures
            entry.is_some() == full_wipe(*stats),
            entry.is_some() ==> entry.unwrap().is(
                event_severity("POTENTIAL_MEMORY_WIPE"@),
                "POTENTIAL_MEMORY_WIPE"@,
                self.module(),
                "All storage counts are zero after upgrade"@,
                None,
            ),
    {
        if stats.document_count == 0 && stats.institution_count == 0 && stats.user_profile_count
            == 0 {
            Some(
                self.logger.event(
                    "POTENTIAL_MEMORY_WIPE",
                    "All storage counts are zero after upgrade",
                    None,
                ),
            )
        } else {
            None
        }
    }

    /// The event at the very end of a replacement: the counts at that moment.
    pub fn log_final_post_upgrade(&self, stats: &StorageStats) -> (entry: LogEntry)
        ensures
            entry.is(
                event_severity("POST_UPGRADE_FINAL"@),
                "POST_UPGRADE_FINAL"@,
                self.module(),
                storage_stats_text(
                    "Final post-upgrade"@,
                    stats.document_count,
                    stats.institution_count,
                    stats.user_profile_count,
                ),
                Some(
                    storage_stats_text(
                        "Final post-upgrade"@,
                        stats.document_count,
                        stats.institution_count,
                        stats.user_profile_count,
                    ),
                ),
            ),
    {
        self.stats_event("POST_UPGRADE_FINAL", "Final post-upgrade", stats)
    }

    /// The event that reports how the validation of the store went.
    pub fn log_storage_validation(&self, validation_result: Result<(), String>) -> (entry:
        LogEntry)
        ensures
            match validation_result {
                Ok(_) => entry.is(
                    event_severity("STORAGE_VALIDATION"@),
                    "STORAGE_VALIDATION"@,
                    self.module(),
                    "Storage integrity validation passed"@,
                    None,
                ),
                Err(e) => entry.is(
                    event_severity("STORAGE_VALIDATION"@),
                    "STORAGE_VALIDATION"@,
                    self.module(),
                    "Storage validation failed: "@ + e@,
                    Some(e@),
                ),
            },
    {
        match validation_result {
            Ok(_) => self.logger.event(
                "STORAGE_VALIDATION",
                "Storage integrity validation passed",
                None,
            ),
            Err(e) => {
                let mut message = String::from_str("Storage validation failed: ");
                message.append(e.as_str());
                self.logger.event("STORAGE_VALIDATION", message.as_str(), Some(e))
            },
        }
    }

    /// The event that a migration starts: only when there is something to
    /// migrate.
    pub fn log_data_migration_start(&self, documents_needing_migration: usize) -> (entry: Option<
        LogEntry,
    >)
        ensures
            entry.is_some() == (documents_needing_migration > 0),
            entry.is_some() ==> entry.unwrap().is(
                event_severity("DATA_MIGRATION"@),
                "DATA_MIGRATION"@,
                self.module(),
                "Starting data migration for "@ + decimal_text(documents_needing_migration as nat)
                    + " documents with missing file hashes"@,
                Some("Document count: "@ + decimal_text(documents_needing_migration as nat)),
            ),
    {
        if documents_needing_migration > 0 {
            let count: u64 = documents_needing_migration as u64;
            let mut message = String::from_str("Starting data migration for ");
            push_decimal(&mut message, count);
            message.append(" documents with missing file hashes");
            let mut detail = String::from_str("Document count: ");
            push_decimal(&mut detail, count);
            Some(self.logger.event("DATA_MIGRATION", message.as_str(), Some(detail)))
        } else {
            None
        }
    }

    /// The event that the migration check is over.
    pub fn log_data_migration_complete(&self) -> (entry: LogEntry)
        ensures
            entry.is(
                event_severity("DATA_MIGRATION"@),
                "DATA_MIGRATION"@,
                self.module(),
                "Data migration check completed"@,
                None,
            ),
    {
        self.logger.event("DATA_MIGRATION", "Data migration check completed", None)
    }

    /// The event that one document was migrated, or could not be.
    pub fn log_document_migration(&self, doc_id: &str, success: bool, error: Option<String>) -> (entry:
        LogEntry)
        ensures
            success ==> entry.is(
                event_severity("DOCUMENT_MIGRATION"@),
                "DOCUMENT_MIGRATION"@,
                self.module(),
                "Migrated document "@ + doc_id@ + " with computed hash"@,
                None,
            ),
            !success ==> entry.is(
                event_severity("DOCUMENT_MIGRATION"@),
                "DOCUMENT_MIGRATION"@,
                self.module(),
                "Failed to migrate document "@ + doc_id@,
                detail_view(error),
            ),
    {
        if success {
            let mut message = String::from_str("Migrated document ");
            message.append(doc_id);
            message.append(" with computed hash");
            self.logger.event("DOCUMENT_MIGRATION", message.as_str(), None)
        } else {
            let mut message = String::from_str("Failed to migrate document ");
            message.append(doc_id);
            self.logger.event("DOCUMENT_MIGRATION", message.as_str(), error)
        }
    }

    /// The event that the cleanup starts.
    pub fn log_cleanup_start(&self) -> (entry: LogEntry)
        ensures
            entry.is(
                event_severity("CLEANUP"@),
                "CLEANUP"@,
                self.module(),
                "Starting cleanup of corrupted entries"@,
                None,
            ),
    {
        self.logger.event("CLEANUP", "Starting cleanup of corrupted entries", None)
    }

    /// The event that the cleanup is over.
    pub fn log_cleanup_complete(&self) -> (entry: LogEntry)
        ensures
            entry.is(
                event_severity("CLEANUP"@),
                "CLEANUP"@,
                self.module(),
                "Cleanup of corrupted entries completed"@,
                None,
            ),
    {
        self.logger.event("CLEANUP", "Cleanup of corrupted entries completed", None)
    }
}

/// A logger of the life cycle's events.
pub fn get_lifecycle_logger() -> (logger: LifecycleLogger)
    ensures
        logger.module() == "lifecycle"@,
{
    LifecycleLogger::new()
}

} // verus!
