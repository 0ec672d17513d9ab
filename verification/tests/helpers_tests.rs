use notary_store::memory_logger::perform_memory_wipe_check;
use notary_store::logging::LogSeverity;
use notary_store::stats::StorageStats;
use notary_store::timestamp::{
    format_timestamp_to_human_readable, timestamp_has_date, year_and_day,
};
use notary_store::validate::{
    has_char, is_white_space, trim, validate_email, validate_file_type, validate_string_length,
};

fn stats(documents: u64, institutions: u64, users: u64, bytes: u64) -> StorageStats {
    StorageStats {
        document_count: documents,
        institution_count: institutions,
        user_profile_count: users,
        total_file_size_bytes: bytes,
    }
}

#[test]
fn timestamps_in_words() {
    assert_eq!(
        format_timestamp_to_human_readable(1758424080000000000),
        "Sunday, 21 September 2025 3:08 AM"
    );
    assert_eq!(format_timestamp_to_human_readable(0), "Thursday, 1 January 1970 12:00 AM");
    assert_eq!(
        format_timestamp_to_human_readable(1709208005000000000),
        "Thursday, 29 February 2024 12:00 PM"
    );
    assert_eq!(
        format_timestamp_to_human_readable(1735689599000000000),
        "Tuesday, 31 December 2024 11:59 PM"
    );
    assert_eq!(
        format_timestamp_to_human_readable(951869100000000000),
        "Wednesday, 1 March 2000 12:05 AM"
    );
    assert_eq!(
        format_timestamp_to_human_readable(1735736820000000000),
        "Wednesday, 1 January 2025 1:07 PM"
    );
    assert_eq!(
        format_timestamp_to_human_readable(1686830340000000000 + 999_999_999),
        "Thursday, 15 June 2023 11:59 AM"
    );
}

#[test]
fn the_day_after_a_short_year_has_no_date() {
    assert!(timestamp_has_date(0));
    assert!(timestamp_has_date(1735736820000000000));
    assert!(!timestamp_has_date(31536000000000000));
    assert!(!timestamp_has_date(1767225600000000000));
    assert!(timestamp_has_date(1767225600000000000 + 86_400_000_000_000));
    assert!(timestamp_has_date(u64::MAX));
    assert_eq!(year_and_day(0), (1970, 0));
    assert_eq!(year_and_day(31536000000000000), (1970, 365));
    assert_eq!(year_and_day(1735689599000000000), (2024, 365));
    assert_eq!(year_and_day(1735736820000000000), (2025, 0));
}

#[test]
fn trimming() {
    assert_eq!(trim("  a b \t\n"), "a b");
    assert_eq!(trim("\u{3000}é\u{a0}"), "é");
    assert_eq!(trim(" \r\n "), "");
    assert_eq!(trim(""), "");
    assert_eq!(trim("x"), "x");
    for c in ['\t', '\n', '\u{b}', '\u{c}', '\r', ' ', '\u{85}', '\u{a0}', '\u{1680}', '\u{2000}',
        '\u{200a}', '\u{2028}', '\u{2029}', '\u{202f}', '\u{205f}', '\u{3000}']
    {
        assert!(is_white_space(c));
        assert!(c.is_whitespace());
    }
    for c in ['a', '\u{8}', '\u{e}', '\u{200b}', '\u{feff}', '\u{180e}'] {
        assert!(!is_white_space(c));
        assert!(!c.is_whitespace());
    }
    assert!(has_char("a.b", '.'));
    assert!(!has_char("ab", '.'));
    assert!(has_char("é€@", '@'));
    assert!(!has_char("é€ŀ", '@'));
    assert!(!has_char("", '@'));
}

#[test]
fn string_length_limits() {
    assert_eq!(validate_string_length("  ab  ", 2, 100, "Name"), Ok(()));
    assert_eq!(
        validate_string_length("  a  ", 2, 100, "Name"),
        Err("Name must be between 2 and 100 characters (after trimming whitespace)".to_string())
    );
    assert_eq!(
        validate_string_length("abcd", 1, 3, "Collection name"),
        Err("Collection name must be between 1 and 3 characters (after trimming whitespace)"
            .to_string())
    );
    // the length is counted in bytes
    assert_eq!(validate_string_length("éé", 4, 4, "x"), Ok(()));
    assert_eq!(validate_string_length("", 0, 0, "x"), Ok(()));
}

#[test]
fn email_shape() {
    assert_eq!(validate_email(" a@b.c "), Ok(()));
    assert_eq!(
        validate_email("a@b."),
        Err("Email must be between 5 and 100 characters (after trimming whitespace)".to_string())
    );
    let long = format!("{}@b.c", "a".repeat(97));
    assert_eq!(long.len(), 101);
    assert_eq!(
        validate_email(&long),
        Err("Email must be between 5 and 100 characters (after trimming whitespace)".to_string())
    );
    assert_eq!(validate_email("abcde.f"), Err("Invalid email format".to_string()));
    assert_eq!(validate_email("abc@def"), Err("Invalid email format".to_string()));
    assert_eq!(validate_email("abcdefg"), Err("Invalid email format".to_string()));
}

#[test]
fn file_types() {
    let allowed = ["application/pdf", "image/png"];
    assert_eq!(validate_file_type(" image/png ", &allowed), Ok(()));
    assert_eq!(
        validate_file_type("image/gif", &allowed),
        Err("Unsupported file type. Allowed types: application/pdf, image/png".to_string())
    );
    assert_eq!(
        validate_file_type("x", &["only"]),
        Err("Unsupported file type. Allowed types: only".to_string())
    );
    assert_eq!(
        validate_file_type("x", &[]),
        Err("Unsupported file type. Allowed types: ".to_string())
    );
}

#[test]
fn wipe_check_for_the_outside_service_only() {
    let check = perform_memory_wipe_check("Periodic Memory Check", true, &stats(0, 0, 0, 0));
    assert!(check.is_wiped);
    assert_eq!(
        check.message,
        "\u{1F6A8} Periodic Memory Check: MEMORY WIPE DETECTED - All storage is empty!"
    );
    assert!(check.entries.is_empty());
    assert_eq!(check.outside.event_type, "Periodic Memory Check - WIPE DETECTED");
    assert_eq!(check.outside.message, check.message);
    assert_eq!(check.outside.severity, "INFO");
    assert_eq!(
        check.outside.detailed_data,
        Some(format!("Stats: {:?}", stats(0, 0, 0, 0)))
    );

    let check = perform_memory_wipe_check("Periodic Memory Check", true, &stats(1, 2, 3, 9));
    assert!(!check.is_wiped);
    assert_eq!(
        check.message,
        "\u{2705} Periodic Memory Check: Memory appears intact. Total items: 6"
    );
    assert_eq!(check.outside.event_type, "Periodic Memory Check - OK");
    assert_eq!(check.outside.detailed_data, Some(format!("Stats: {:?}", stats(1, 2, 3, 9))));
}

#[test]
fn wipe_check_with_local_events() {
    let check = perform_memory_wipe_check("MANUAL", false, &stats(0, 0, 0, 0));
    assert!(check.is_wiped);
    assert_eq!(check.message, "MEMORY WIPE DETECTED: All storage is empty!");
    assert_eq!(check.entries.len(), 3);
    assert_eq!(check.entries[0].event_type, "MANUAL_MEMORY_WIPE_CHECK");
    assert_eq!(check.entries[0].severity, LogSeverity::Warning);
    assert_eq!(check.entries[0].module, "memory_monitoring");
    assert_eq!(check.entries[0].message, "MANUAL function called");
    assert_eq!(check.entries[0].detailed_data, None);
    assert_eq!(
        check.entries[1].message,
        "Memory stats: documents=0, institutions=0, user_profiles=0, total=0"
    );
    assert_eq!(check.entries[2].event_type, "MANUAL_MEMORY_WIPE_CHECK");
    assert_eq!(check.entries[2].message, check.message);
    assert_eq!(
        check.entries[2].detailed_data,
        Some(
            "Stats: StorageStats { document_count: 0, institution_count: 0, user_profile_count: 0, total_file_size_bytes: 0 }"
                .to_string()
        )
    );
    assert_eq!(check.outside.event_type, "MANUAL_MEMORY_WIPE_CHECK");
    assert_eq!(check.outside.severity, "WARNING");

    let full = stats(u64::MAX, u64::MAX, 1, 0);
    let check = perform_memory_wipe_check("MANUAL", false, &full);
    assert!(!check.is_wiped);
    assert_eq!(check.message, "Memory appears intact. Total items: 36893488147419103231");
    assert_eq!(check.entries[2].event_type, "MANUAL_MEMORY_CHECK");
    assert_eq!(check.entries[2].severity, LogSeverity::Info);
    assert_eq!(check.outside.event_type, "MANUAL_MEMORY_CHECK");
    assert_eq!(check.outside.severity, "INFO");
}
