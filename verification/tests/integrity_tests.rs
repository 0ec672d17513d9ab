use notary_store::access::{
    get_document_safe, set_owner_tokens, store_document_safe, update_institution_safe,
    update_user_profile_safe,
};
use notary_store::cleanup::{run_cleanup, RemovedKey};
use notary_store::codec::{encode_document, encode_institution, encode_user_profile};
use notary_store::logging::LogSeverity;
use notary_store::records::{anonymous_identity, Document, Institution, UserProfile};
use notary_store::startup::run_startup_checks;
use notary_store::stats::{
    anomaly_severity, detect_anomalies, get_storage_stats, is_storage_empty, Anomaly, StorageStats,
};
use notary_store::store::{Collection, Store};
use notary_store::validation::{
    count_orphans, finding_severity, run_integrity_validation, Finding, FindingKind,
};

fn document(id: &str, file: Vec<u8>) -> Document {
    let mut document = Document::default();
    document.document_id = id.to_string();
    document.name = "name".to_string();
    document.file_data = file;
    document
}

fn institution(id: &str) -> Institution {
    let mut institution = Institution::default();
    institution.institution_id = id.to_string();
    institution.name = "name".to_string();
    institution
}

fn profile(identity: Vec<u8>, email: &str) -> UserProfile {
    let mut profile = UserProfile::default();
    profile.internet_identity = identity;
    profile.email = email.to_string();
    profile
}

fn stats(documents: u64, institutions: u64, users: u64) -> StorageStats {
    StorageStats {
        document_count: documents,
        institution_count: institutions,
        user_profile_count: users,
        total_file_size_bytes: 0,
    }
}

#[test]
fn document_without_file_is_removed_and_the_other_kept() {
    let mut store = Store::new();
    store_document_safe(&mut store, "doc_1", &document("doc_1", vec![1, 2, 3])).unwrap();
    store_document_safe(&mut store, "doc_2", &document("doc_2", vec![])).unwrap();
    let findings = run_integrity_validation(&store);
    assert!(findings.is_empty());
    let report = run_cleanup(&mut store);
    assert_eq!(report.count_removed, 1);
    assert_eq!(
        report.removed_keys,
        vec![RemovedKey { collection: Collection::Documents, key: b"doc_2".to_vec() }]
    );
    assert_eq!(get_document_safe(&store, "doc_2"), None);
    assert_eq!(get_document_safe(&store, "doc_1"), Some(document("doc_1", vec![1, 2, 3])));
    assert_eq!(get_storage_stats(&store).document_count, 1);
}

#[test]
fn cleanup_run_twice_removes_nothing_the_second_time() {
    let mut store = Store::new();
    store_document_safe(&mut store, "a", &document("a", vec![1])).unwrap();
    store_document_safe(&mut store, "b", &document("b", vec![])).unwrap();
    store.put_raw(Collection::Documents, b"c".to_vec(), vec![0xde, 0xad]);
    update_user_profile_safe(&mut store, &vec![1], &profile(vec![1], "")).unwrap();
    store.put_raw(Collection::UserProfiles, vec![2], encode_user_profile(&profile(vec![4], "")));
    store.put_raw(Collection::UserProfiles, vec![3], vec![1]);
    store.put_raw(Collection::Institutions, b"junk".to_vec(), vec![1]);
    let first = run_cleanup(&mut store);
    assert_eq!(first.count_removed, 4);
    assert_eq!(
        first.removed_keys,
        vec![
            RemovedKey { collection: Collection::Documents, key: b"b".to_vec() },
            RemovedKey { collection: Collection::Documents, key: b"c".to_vec() },
            RemovedKey { collection: Collection::UserProfiles, key: vec![2] },
            RemovedKey { collection: Collection::UserProfiles, key: vec![3] },
        ]
    );
    let documents = store.entries(Collection::Documents);
    let profiles = store.entries(Collection::UserProfiles);
    let second = run_cleanup(&mut store);
    assert_eq!(second.count_removed, 0);
    assert!(second.removed_keys.is_empty());
    assert_eq!(store.entries(Collection::Documents), documents);
    assert_eq!(store.entries(Collection::UserProfiles), profiles);
    assert_eq!(store.count(Collection::Documents), 1);
    assert_eq!(store.count(Collection::UserProfiles), 1);
    // institutions are never cleaned
    assert_eq!(store.count(Collection::Institutions), 1);
}

#[test]
fn stats_count_and_sum_file_sizes() {
    let mut store = Store::new();
    assert!(is_storage_empty(&store));
    assert_eq!(get_storage_stats(&store), stats(0, 0, 0));
    store_document_safe(&mut store, "a", &document("a", vec![0; 10])).unwrap();
    store_document_safe(&mut store, "b", &document("b", vec![0; 5])).unwrap();
    store.put_raw(Collection::Documents, b"c".to_vec(), vec![1]);
    update_institution_safe(&mut store, "i", &institution("i")).unwrap();
    let found = get_storage_stats(&store);
    assert_eq!(
        found,
        StorageStats {
            document_count: 3,
            institution_count: 1,
            user_profile_count: 0,
            total_file_size_bytes: 15,
        }
    );
    assert!(!is_storage_empty(&store));
}

#[test]
fn anomaly_rules() {
    assert_eq!(detect_anomalies(&stats(0, 0, 0), 0), vec![Anomaly::PotentialFullWipe]);
    assert_eq!(detect_anomalies(&stats(0, 2, 0), 0), vec![Anomaly::PotentialPartialWipe]);
    assert_eq!(detect_anomalies(&stats(1, 0, 3), 0), vec![Anomaly::PotentialPartialWipe]);
    assert_eq!(detect_anomalies(&stats(1, 2, 0), 0), vec![Anomaly::PotentialPartialWipe]);
    assert_eq!(detect_anomalies(&stats(1, 2, 3), 0), vec![]);
    assert_eq!(detect_anomalies(&stats(1, 2, 3), 4), vec![Anomaly::ReferentialAnomaly]);
    assert_eq!(
        detect_anomalies(&stats(0, 0, 0), 1),
        vec![Anomaly::PotentialFullWipe, Anomaly::ReferentialAnomaly]
    );
    assert_eq!(anomaly_severity(Anomaly::PotentialFullWipe), LogSeverity::Critical);
    assert_eq!(anomaly_severity(Anomaly::PotentialPartialWipe), LogSeverity::Warning);
    assert_eq!(anomaly_severity(Anomaly::ReferentialAnomaly), LogSeverity::Warning);
}

#[test]
fn empty_store_reports_a_full_wipe() {
    let mut store = Store::new();
    let report = run_startup_checks(&mut store);
    assert!(report.anomalies.contains(&Anomaly::PotentialFullWipe));
    assert!(!report.anomalies.contains(&Anomaly::PotentialPartialWipe));
    update_institution_safe(&mut store, "i", &institution("i")).unwrap();
    let report = run_startup_checks(&mut store);
    assert_eq!(report.anomalies, vec![Anomaly::PotentialPartialWipe]);
    assert_eq!(report.stats, stats(0, 1, 0));
    assert!(report.findings.is_empty());
    assert_eq!(report.cleanup.count_removed, 0);
}

fn finding(kind: FindingKind, collection: Collection, key: &[u8], reference: &[u8]) -> Finding {
    Finding { kind, collection, key: key.to_vec(), reference: reference.to_vec() }
}

#[test]
fn validator_reports_each_kind_of_finding() {
    let mut store = Store::new();
    store_document_safe(&mut store, "good", &document("good", vec![1])).unwrap();
    store.put_raw(Collection::Documents, b"k".to_vec(), encode_document(&document("other", vec![1])));
    let mut nameless = document("n", vec![1]);
    nameless.name = String::new();
    store.put_raw(Collection::Documents, b"n".to_vec(), encode_document(&nameless));
    store.put_raw(Collection::Documents, b"x".to_vec(), vec![0xff]);
    store.put_raw(Collection::Institutions, b"a".to_vec(), encode_institution(&institution("b")));
    update_user_profile_safe(&mut store, &vec![1], &profile(vec![1], "no-at-sign")).unwrap();
    update_user_profile_safe(&mut store, &vec![2], &profile(vec![2], "")).unwrap();
    update_user_profile_safe(&mut store, &vec![3], &profile(vec![3], "a@b")).unwrap();
    store.put_raw(Collection::UserProfiles, vec![5], encode_user_profile(&profile(vec![6], "a@b")));
    set_owner_tokens(
        &mut store,
        &vec![1],
        &vec!["good".to_string(), "gone".to_string(), "k".to_string(), "lost".to_string()],
    )
    .unwrap();
    store.put_raw(Collection::Nfts, b"anything".to_vec(), vec![1]);
    let before: Vec<_> = (0..6u8)
        .map(|id| store.entries(Collection::from_segment_id(id).unwrap()))
        .collect();
    let findings = run_integrity_validation(&store);
    assert_eq!(
        findings,
        vec![
            finding(FindingKind::KeyMismatch, Collection::Documents, b"k", b""),
            finding(FindingKind::EmptyName, Collection::Documents, b"n", b""),
            finding(FindingKind::EmptyId, Collection::Documents, b"x", b""),
            finding(FindingKind::EmptyName, Collection::Documents, b"x", b""),
            finding(FindingKind::KeyMismatch, Collection::Institutions, b"a", b""),
            finding(FindingKind::InvalidEmail, Collection::UserProfiles, &[1], b""),
            finding(FindingKind::KeyMismatch, Collection::UserProfiles, &[5], b""),
            finding(FindingKind::OrphanedReference, Collection::OwnerTokens, &[1], b"gone"),
            finding(FindingKind::OrphanedReference, Collection::OwnerTokens, &[1], b"lost"),
        ]
    );
    assert_eq!(count_orphans(&findings), 2);
    let after: Vec<_> = (0..6u8)
        .map(|id| store.entries(Collection::from_segment_id(id).unwrap()))
        .collect();
    assert_eq!(before, after);
    let report = run_startup_checks(&mut store);
    assert_eq!(report.findings, findings);
    assert_eq!(report.anomalies, vec![Anomaly::ReferentialAnomaly]);
}

#[test]
fn finding_severities() {
    assert_eq!(finding_severity(FindingKind::EmptyId), LogSeverity::Info);
    assert_eq!(finding_severity(FindingKind::EmptyName), LogSeverity::Info);
    assert_eq!(finding_severity(FindingKind::KeyMismatch), LogSeverity::Warning);
    assert_eq!(finding_severity(FindingKind::InvalidEmail), LogSeverity::Warning);
    assert_eq!(finding_severity(FindingKind::OrphanedReference), LogSeverity::Warning);
}

#[test]
fn anonymous_profile_is_removed() {
    let mut store = Store::new();
    let anonymous = anonymous_identity();
    update_user_profile_safe(&mut store, &anonymous, &profile(anonymous.clone(), "")).unwrap();
    update_user_profile_safe(&mut store, &vec![8], &profile(vec![8], "")).unwrap();
    let report = run_cleanup(&mut store);
    assert_eq!(
        report.removed_keys,
        vec![RemovedKey { collection: Collection::UserProfiles, key: vec![4] }]
    );
    assert_eq!(store.entries(Collection::UserProfiles).len(), 1);
}
