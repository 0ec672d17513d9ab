use notary_store::access::{get_document_safe, store_document_safe};
use notary_store::codec::{
    decode_document_reporting, decode_institution_reporting, decode_user_profile_reporting,
    encode_document, log_deserialization_error,
};
use notary_store::helpers::calculate_file_hash;
use notary_store::hexadecimal::{encode_hex, push_hex};
use notary_store::keys::{StorablePrincipal, StorableString};
use notary_store::logging::{LogEntry, LogSeverity};
use notary_store::records::Document;
use notary_store::snapshot::{write_snapshot, RestoreReport};
use notary_store::snapshot_segment::{
    open_region, restore_snapshot, save_snapshot, SnapshotSegment,
};
use notary_store::store::{Collection, Store};
use notary_store::typed_map::{grew_by, RegionAllocator};

#[test]
fn a_fresh_segment_has_no_pages() {
    let mut allocator = RegionAllocator::new();
    let mut segment = allocator.segment(9);
    assert_eq!(segment.pages(), 0);
    assert_eq!(segment.read(0, 0), Some(vec![]));
    assert_eq!(segment.read(0, 1), None);
    assert!(!segment.write(0, &[1]));
    assert!(segment.write(0, &[]));
    assert!(segment.grow(2));
    assert_eq!(segment.pages(), 2);
    assert!(segment.write(65530, &[1, 2, 3, 4, 5, 6, 7, 8, 9]));
    assert_eq!(segment.read(65529, 11), Some(vec![0, 1, 2, 3, 4, 5, 6, 7, 8, 9, 0]));
    assert!(segment.write(131071, &[7]));
    assert!(!segment.write(131071, &[7, 8]));
    assert_eq!(segment.read(131071, 1), Some(vec![7]));
    assert_eq!(segment.read(131071, 2), None);
    assert_eq!(segment.read(u64::MAX, 2), None);
    assert!(!segment.grow(u64::MAX));
    assert_eq!(segment.pages(), 2);
}

#[test]
fn segments_keep_their_own_bytes() {
    let mut allocator = RegionAllocator::new();
    let mut first = allocator.segment(10);
    let mut second = allocator.segment(11);
    assert!(first.grow(1));
    assert!(second.grow(1));
    assert!(first.write(0, &[1, 1]));
    assert!(second.write(0, &[2, 2]));
    assert_eq!(first.read(0, 2), Some(vec![1, 1]));
    assert_eq!(second.read(0, 2), Some(vec![2, 2]));
}

#[test]
fn unwritten_snapshot_segment_carries_nothing() {
    let mut allocator = RegionAllocator::new();
    let carrier = SnapshotSegment::new(allocator.segment(6));
    assert_eq!(carrier.load(), Vec::<u8>::new());
    let mut store = Store::on(&mut allocator);
    assert_eq!(
        restore_snapshot(&mut store, &carrier),
        RestoreReport { stored: 0, complete: false }
    );
    assert_eq!(store.count(Collection::Documents), 0);
}

#[test]
fn snapshot_segment_carries_what_was_saved() {
    let mut allocator = RegionAllocator::new();
    let mut carrier = SnapshotSegment::new(allocator.segment(6));
    assert!(carrier.save(&[1, 2, 3]));
    assert_eq!(carrier.load(), vec![1, 2, 3]);
    let long: Vec<u8> = (0..200_000u32).map(|i| (i % 251) as u8).collect();
    assert!(carrier.save(&long));
    assert_eq!(carrier.load(), long);
    assert!(carrier.save(&[]));
    assert_eq!(carrier.load(), Vec::<u8>::new());
}

#[test]
fn a_length_that_reaches_past_the_segment_carries_nothing() {
    let mut allocator = RegionAllocator::new();
    let mut segment = allocator.segment(6);
    assert!(segment.grow(1));
    assert!(segment.write(0, &70_000u64.to_le_bytes()));
    let carrier = SnapshotSegment::new(segment);
    assert_eq!(carrier.load(), Vec::<u8>::new());
}

#[test]
fn collections_travel_through_the_snapshot_segment() {
    let (mut store, mut carrier) = open_region();
    let mut document = Document::default();
    document.document_id = "doc_1".to_string();
    document.file_data = vec![1, 2, 3];
    store_document_safe(&mut store, "doc_1", &document).unwrap();
    store.put_raw(Collection::Nfts, b"tx".to_vec(), vec![5]);
    assert!(save_snapshot(&store, &mut carrier));
    assert_eq!(carrier.load(), write_snapshot(&store));

    let mut next = Store::new();
    let report = restore_snapshot(&mut next, &carrier);
    assert_eq!(report, RestoreReport { stored: 2, complete: true });
    assert_eq!(get_document_safe(&next, "doc_1"), Some(document));
    assert_eq!(next.entries(Collection::Nfts), store.entries(Collection::Nfts));
}

#[test]
fn hexadecimal_text() {
    assert_eq!(encode_hex(&[]), "");
    assert_eq!(encode_hex(&[0x00, 0x0f, 0xa0, 0xff, 0x7b]), "000fa0ff7b");
    let mut out = String::from(">");
    push_hex(&mut out, &[0xde, 0xad]);
    assert_eq!(out, ">dead");
}

#[test]
fn file_hash_is_the_digest_in_hexadecimal() {
    assert_eq!(
        calculate_file_hash(b"abc"),
        "ba7816bf8f01cfea414140de5dae2223b00361a396177a9cb410ff61f20015ad"
    );
    assert_eq!(
        calculate_file_hash(&[]),
        "e3b0c44298fc1c149afbf4c8996fb92427ae41e4649b934ca495991b7852b855"
    );
}

#[test]
fn text_keys() {
    let key = StorableString("né".to_string());
    assert_eq!(key.to_bytes(), vec![b'n', 0xc3, 0xa9]);
    assert_eq!(StorableString::from_bytes(vec![b'n', 0xc3, 0xa9]), key);
    assert_eq!(StorableString::try_from_bytes(vec![b'n', 0xc3, 0xa9]), Some(key));
    assert_eq!(StorableString::try_from_bytes(vec![0xc3]), None);
    assert_eq!(StorableString::try_from_bytes(vec![]), Some(StorableString(String::new())));
    assert!(StorableString("a".to_string()) < StorableString("b".to_string()));
}

#[test]
fn identity_keys() {
    let key = StorablePrincipal(vec![1, 2]);
    assert_eq!(key.to_bytes(), vec![1, 2]);
    assert_eq!(StorablePrincipal::from_bytes(vec![1, 2]), key);
    assert_eq!(StorablePrincipal::try_from_bytes(vec![0; 29]), Some(StorablePrincipal(vec![0; 29])));
    assert_eq!(StorablePrincipal::try_from_bytes(vec![0; 30]), None);
}

fn event(severity: LogSeverity, event_type: &str, message: &str) -> LogEntry {
    LogEntry {
        severity,
        event_type: event_type.to_string(),
        module: "storage".to_string(),
        message: message.to_string(),
        detailed_data: None,
    }
}

#[test]
fn a_decode_fault_gives_two_events() {
    let (fault, corrupted) = log_deserialization_error("Document", &[0xab, 0x01]);
    assert_eq!(
        fault,
        event(LogSeverity::Critical, "DESERIALIZATION_ERROR", "Failed to deserialize Document")
    );
    assert_eq!(
        corrupted,
        event(
            LogSeverity::Debug,
            "CORRUPTED_DATA",
            "Corrupted Document data (first 100 bytes): ab01"
        )
    );
    let long = vec![0x11u8; 150];
    let (_, shown) = log_deserialization_error("X", &long);
    assert_eq!(
        shown.message,
        format!("Corrupted X data (first 100 bytes): {}", "11".repeat(100))
    );
}

#[test]
fn decoding_reports_faults_only() {
    let mut document = Document::default();
    document.document_id = "d".to_string();
    let (decoded, events) = decode_document_reporting(&encode_document(&document));
    assert_eq!(decoded, document);
    assert!(events.is_empty());
    let (decoded, events) = decode_document_reporting(&[9]);
    assert!(decoded.is_sentinel());
    assert_eq!(
        events,
        vec![
            event(LogSeverity::Critical, "DESERIALIZATION_ERROR", "Failed to deserialize Document"),
            event(
                LogSeverity::Debug,
                "CORRUPTED_DATA",
                "Corrupted Document data (first 100 bytes): 09"
            ),
        ]
    );
    let (institution, events) = decode_institution_reporting(&[]);
    assert!(institution.is_sentinel());
    assert_eq!(events.len(), 2);
    assert_eq!(events[0].message, "Failed to deserialize Institution");
    assert_eq!(events[1].message, "Corrupted Institution data (first 100 bytes): ");
    let (profile, events) = decode_user_profile_reporting(&[1, 2]);
    assert!(profile.is_sentinel());
    assert_eq!(events[0].message, "Failed to deserialize UserProfile");
    assert_eq!(events[1].message, "Corrupted UserProfile data (first 100 bytes): 0102");
}

#[test]
fn growing_by_nothing_always_succeeds() {
    let mut allocator = RegionAllocator::new();
    let mut segment = allocator.segment(12);
    assert!(segment.grow(0));
    assert_eq!(segment.pages(), 0);
    assert!(segment.grow(1));
    assert!(segment.write(0, &[5]));
    assert!(segment.grow(0));
    assert_eq!(segment.pages(), 1);
    assert_eq!(segment.read(0, 1), Some(vec![5]));
    assert!(!segment.grow(4194305));
    assert_eq!(segment.pages(), 1);
    assert!(grew_by(0));
    assert!(grew_by(7));
    assert!(!grew_by(-1));
}

#[test]
fn a_snapshot_that_fits_is_always_saved() {
    let mut allocator = RegionAllocator::new();
    let mut segment = allocator.segment(6);
    assert!(segment.grow(1));
    let mut carrier = SnapshotSegment::new(segment);
    assert_eq!(carrier.load(), Vec::<u8>::new());
    let store = Store::new();
    assert!(save_snapshot(&store, &mut carrier));
    assert_eq!(carrier.load(), vec![0u8; 48]);
    assert!(save_snapshot(&store, &mut carrier));
    assert_eq!(carrier.load(), write_snapshot(&store));
}
