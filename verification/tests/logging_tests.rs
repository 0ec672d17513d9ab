use notary_store::helpers::{
    generate_document_id, generate_institution_id, get_cycles_status, validate_file_size,
};
use notary_store::lifecycle_logger::{format_storage_stats, get_lifecycle_logger, LifecycleLogger};
use notary_store::logging::{
    get_logger, get_severity_for_event_type, get_severity_level, push_decimal, text_is, LogEntry,
    LogSeverity, Logger,
};
use notary_store::memory_logger::{
    external_event, get_discord_logger, get_memory_logger, ExternalLogger, MemoryLogger,
};
use notary_store::stats::StorageStats;

fn stats(documents: u64, institutions: u64, users: u64) -> StorageStats {
    StorageStats {
        document_count: documents,
        institution_count: institutions,
        user_profile_count: users,
        total_file_size_bytes: 0,
    }
}

fn entry(
    severity: LogSeverity,
    event_type: &str,
    module: &str,
    message: &str,
    detail: Option<&str>,
) -> LogEntry {
    LogEntry {
        severity,
        event_type: event_type.to_string(),
        module: module.to_string(),
        message: message.to_string(),
        detailed_data: detail.map(|d| d.to_string()),
    }
}

#[test]
fn severity_names() {
    assert_eq!(LogSeverity::Critical.as_str(), "CRITICAL");
    assert_eq!(LogSeverity::Warning.as_str(), "WARNING");
    assert_eq!(LogSeverity::Info.as_str(), "INFO");
    assert_eq!(LogSeverity::Debug.as_str(), "DEBUG");
}

#[test]
fn severity_of_each_event_type() {
    for critical in [
        "POTENTIAL_MEMORY_WIPE",
        "MEMORY_WIPE_DETECTED",
        "HEARTBEAT_MEMORY_WIPE_DETECTED",
        "SERIALIZATION_ERROR",
        "DESERIALIZATION_ERROR",
    ] {
        assert_eq!(get_severity_for_event_type(critical), LogSeverity::Critical);
    }
    for warning in
        ["MANUAL_MEMORY_WIPE_CHECK", "MEMORY_ANOMALY", "STORAGE_ANOMALY", "VALIDATION_WARNINGS"]
    {
        assert_eq!(get_severity_for_event_type(warning), LogSeverity::Warning);
    }
    for debug in ["CORRUPTED_DATA", "VALIDATION_SKIP"] {
        assert_eq!(get_severity_for_event_type(debug), LogSeverity::Debug);
    }
    for info in [
        "PRE_UPGRADE",
        "POST_UPGRADE",
        "POST_UPGRADE_FINAL",
        "CANISTER_INIT",
        "HEARTBEAT_MEMORY_OK",
        "STORAGE_VALIDATION",
        "DATA_MIGRATION",
        "DOCUMENT_MIGRATION",
        "CLEANUP",
        "USER_REGISTRATION",
        "",
        "anything else",
    ] {
        assert_eq!(get_severity_for_event_type(info), LogSeverity::Info);
    }
}

#[test]
fn severity_told_to_the_outside_service() {
    assert_eq!(get_severity_level("POTENTIAL_MEMORY_WIPE"), "CRITICAL");
    assert_eq!(get_severity_level("MEMORY_WIPE_DETECTED"), "CRITICAL");
    assert_eq!(get_severity_level("MANUAL_MEMORY_WIPE_CHECK"), "WARNING");
    assert_eq!(get_severity_level("MEMORY_ANOMALY"), "WARNING");
    assert_eq!(get_severity_level("PRE_UPGRADE"), "INFO");
    assert_eq!(get_severity_level("HEARTBEAT_MEMORY_WIPE_DETECTED"), "INFO");
    assert_eq!(get_severity_level(""), "INFO");
}

#[test]
fn decimal_numerals() {
    for n in [0u64, 7, 10, 99, 100, 1234567890, u64::MAX] {
        let mut out = String::from("x");
        push_decimal(&mut out, n);
        assert_eq!(out, format!("x{}", n));
    }
    assert!(text_is("abc", "abc"));
    assert!(!text_is("abc", "abd"));
    assert!(!text_is("abc", "ab"));
}

#[test]
fn storage_stats_in_words() {
    assert_eq!(
        format_storage_stats("Pre-upgrade", 3, 0, 12),
        "Pre-upgrade: 3 documents, 0 institutions, 12 user profiles"
    );
}

#[test]
fn logger_builds_entries() {
    let logger = get_logger("storage");
    assert_eq!(logger.module, "storage");
    assert_eq!(Logger::new("x").module, "x");
    let logged = logger.log(LogSeverity::Debug, "E", "m", Some("d".to_string()));
    assert_eq!(logged, entry(LogSeverity::Debug, "E", "storage", "m", Some("d")));
    let event = logger.event("STORAGE_ANOMALY", "m", None);
    assert_eq!(event, entry(LogSeverity::Warning, "STORAGE_ANOMALY", "storage", "m", None));
    assert_eq!(
        event.render(17, "aaaaa-aa"),
        "[17] WARNING - STORAGE_ANOMALY - Module: storage - Canister: aaaaa-aa - Message: m"
    );
}

#[test]
fn lifecycle_events() {
    let logger = get_lifecycle_logger();
    let counts = stats(1, 2, 3);
    let text = "1 documents, 2 institutions, 3 user profiles";
    let pre = format!("Pre-upgrade: {}", text);
    assert_eq!(
        logger.log_pre_upgrade(&counts),
        entry(LogSeverity::Info, "PRE_UPGRADE", "lifecycle", &pre, Some(&pre))
    );
    let post = format!("Post-upgrade: {}", text);
    assert_eq!(
        logger.log_post_upgrade(&counts),
        entry(LogSeverity::Info, "POST_UPGRADE", "lifecycle", &post, Some(&post))
    );
    let last = format!("Final post-upgrade: {}", text);
    assert_eq!(
        LifecycleLogger::new().log_final_post_upgrade(&counts),
        entry(LogSeverity::Info, "POST_UPGRADE_FINAL", "lifecycle", &last, Some(&last))
    );
    assert_eq!(logger.log_potential_memory_wipe(&counts), None);
    assert_eq!(logger.log_potential_memory_wipe(&stats(0, 0, 1)), None);
    assert_eq!(
        logger.log_potential_memory_wipe(&stats(0, 0, 0)),
        Some(entry(
            LogSeverity::Critical,
            "POTENTIAL_MEMORY_WIPE",
            "lifecycle",
            "All storage counts are zero after upgrade",
            None
        ))
    );
    assert_eq!(
        logger.log_storage_validation(Ok(())),
        entry(
            LogSeverity::Info,
            "STORAGE_VALIDATION",
            "lifecycle",
            "Storage integrity validation passed",
            None
        )
    );
    assert_eq!(
        logger.log_storage_validation(Err("bad key".to_string())),
        entry(
            LogSeverity::Info,
            "STORAGE_VALIDATION",
            "lifecycle",
            "Storage validation failed: bad key",
            Some("bad key")
        )
    );
    assert_eq!(logger.log_data_migration_start(0), None);
    assert_eq!(
        logger.log_data_migration_start(12),
        Some(entry(
            LogSeverity::Info,
            "DATA_MIGRATION",
            "lifecycle",
            "Starting data migration for 12 documents with missing file hashes",
            Some("Document count: 12")
        ))
    );
    assert_eq!(
        logger.log_data_migration_complete(),
        entry(LogSeverity::Info, "DATA_MIGRATION", "lifecycle", "Data migration check completed", None)
    );
    assert_eq!(
        logger.log_document_migration("d1", true, Some("ignored".to_string())),
        entry(
            LogSeverity::Info,
            "DOCUMENT_MIGRATION",
            "lifecycle",
            "Migrated document d1 with computed hash",
            None
        )
    );
    assert_eq!(
        logger.log_document_migration("d1", false, Some("why".to_string())),
        entry(
            LogSeverity::Info,
            "DOCUMENT_MIGRATION",
            "lifecycle",
            "Failed to migrate document d1",
            Some("why")
        )
    );
    assert_eq!(
        logger.log_cleanup_start(),
        entry(LogSeverity::Info, "CLEANUP", "lifecycle", "Starting cleanup of corrupted entries", None)
    );
    assert_eq!(
        logger.log_cleanup_complete(),
        entry(LogSeverity::Info, "CLEANUP", "lifecycle", "Cleanup of corrupted entries completed", None)
    );
}

#[test]
fn memory_events() {
    let logger = get_memory_logger();
    assert_eq!(
        logger.log_memory_event("MEMORY_ANOMALY", "odd", None),
        entry(LogSeverity::Warning, "MEMORY_ANOMALY", "memory_monitoring", "odd", None)
    );
    let (logged, sent) = MemoryLogger::new().log_memory_event_with_webhook(
        "MEMORY_WIPE_DETECTED",
        "gone",
        Some("all".to_string()),
    );
    assert_eq!(
        logged,
        entry(LogSeverity::Critical, "MEMORY_WIPE_DETECTED", "memory_monitoring", "gone", Some("all"))
    );
    assert_eq!(sent.event_type, "MEMORY_WIPE_DETECTED");
    assert_eq!(sent.message, "gone");
    assert_eq!(sent.detailed_data, Some("all".to_string()));
    assert_eq!(sent.severity, "CRITICAL");
    assert_eq!(sent.webhook_url, "");
    assert_eq!(get_discord_logger().webhook_url(), "");
    assert_eq!(ExternalLogger::new().webhook_url(), "");
    let outside = ExternalLogger::with_url("https://logs.example/hook");
    let event = external_event("PRE_UPGRADE", "m", None, &outside);
    assert_eq!(event.webhook_url, "https://logs.example/hook");
    assert_eq!(event.severity, "INFO");
}

#[test]
fn generated_ids() {
    assert_eq!(generate_document_id(0), "document_0");
    assert_eq!(generate_document_id(1700000000123456789), "document_1700000000123456789");
    assert_eq!(generate_institution_id(42), "INST_42");
}

#[test]
fn file_size_limit() {
    assert_eq!(validate_file_size(0, 0), Ok(()));
    assert_eq!(validate_file_size(2 * 1024 * 1024, 2), Ok(()));
    assert_eq!(
        validate_file_size(2 * 1024 * 1024 + 1, 2),
        Err("File size exceeds 2MB limit".to_string())
    );
    assert_eq!(validate_file_size(1, 0), Err("File size exceeds 0MB limit".to_string()));
}

#[test]
fn cycles_status_thresholds() {
    assert_eq!(get_cycles_status(0), "CRITICAL");
    assert_eq!(get_cycles_status(999_999_999), "CRITICAL");
    assert_eq!(get_cycles_status(1_000_000_000), "LOW");
    assert_eq!(get_cycles_status(9_999_999_999), "LOW");
    assert_eq!(get_cycles_status(10_000_000_000), "NORMAL");
    assert_eq!(get_cycles_status(u128::MAX), "NORMAL");
}
