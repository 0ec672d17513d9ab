use notary_store::access::{
    get_document_safe, set_owner_tokens, store_document_safe, update_institution_safe,
    update_user_profile_safe,
};
use notary_store::records::{Document, Institution, UserProfile};
use notary_store::snapshot::{read_snapshot, take_pair, write_snapshot, RestoreReport};
use notary_store::store::{Collection, Store};

const ALL: [Collection; 6] = [
    Collection::Documents,
    Collection::Institutions,
    Collection::UserProfiles,
    Collection::OwnerTokens,
    Collection::Nfts,
    Collection::DocumentNfts,
];

fn filled_store() -> Store {
    let mut store = Store::new();
    for id in ["doc_1", "doc_2", "doc_3"] {
        let mut document = Document::default();
        document.document_id = id.to_string();
        document.file_data = id.as_bytes().to_vec();
        store_document_safe(&mut store, id, &document).unwrap();
    }
    let mut institution = Institution::default();
    institution.institution_id = "INST_1".to_string();
    update_institution_safe(&mut store, "INST_1", &institution).unwrap();
    for identity in [vec![1u8], vec![2u8, 2]] {
        let mut profile = UserProfile::default();
        profile.internet_identity = identity.clone();
        update_user_profile_safe(&mut store, &identity, &profile).unwrap();
    }
    set_owner_tokens(&mut store, &vec![1], &vec!["doc_1".to_string()]).unwrap();
    store.put_raw(Collection::Nfts, b"tx_1".to_vec(), vec![1, 2, 3]);
    store.put_raw(Collection::Nfts, b"tx_2".to_vec(), vec![]);
    store.put_raw(Collection::DocumentNfts, b"doc_1".to_vec(), b"tx_1".to_vec());
    store
}

fn body_start(store: &Store, upto: usize) -> usize {
    let mut at = 48;
    for collection in ALL.iter().take(upto) {
        for (key, value) in store.entries(*collection) {
            at += 8 + key.len() + value.len();
        }
    }
    at
}

#[test]
fn absent_snapshot_restores_nothing() {
    let mut store = filled_store();
    let before: Vec<_> = ALL.iter().map(|c| store.entries(*c)).collect();
    let report = read_snapshot(&mut store, &[]);
    assert_eq!(report, RestoreReport { stored: 0, complete: false });
    let after: Vec<_> = ALL.iter().map(|c| store.entries(*c)).collect();
    assert_eq!(before, after);
    let mut fresh = Store::new();
    assert_eq!(read_snapshot(&mut fresh, &[0u8; 47]).stored, 0);
    for collection in ALL {
        assert_eq!(fresh.count(collection), 0);
    }
}

#[test]
fn snapshot_of_empty_store_is_six_zero_counts() {
    let store = Store::new();
    let bytes = write_snapshot(&store);
    assert_eq!(bytes, vec![0u8; 48]);
    let mut fresh = Store::new();
    assert_eq!(read_snapshot(&mut fresh, &bytes), RestoreReport { stored: 0, complete: true });
}

#[test]
fn snapshot_layout() {
    let mut store = Store::new();
    store.put_raw(Collection::Institutions, b"b".to_vec(), vec![7, 8]);
    store.put_raw(Collection::Institutions, b"a".to_vec(), vec![]);
    store.put_raw(Collection::DocumentNfts, b"k".to_vec(), vec![9]);
    let bytes = write_snapshot(&store);
    let mut expected: Vec<u8> = Vec::new();
    for count in [0u64, 2, 0, 0, 0, 1] {
        expected.extend_from_slice(&count.to_le_bytes());
    }
    expected.extend_from_slice(&[1, 0, 0, 0, b'a', 0, 0, 0, 0]);
    expected.extend_from_slice(&[1, 0, 0, 0, b'b', 2, 0, 0, 0, 7, 8]);
    expected.extend_from_slice(&[1, 0, 0, 0, b'k', 1, 0, 0, 0, 9]);
    assert_eq!(bytes, expected);
}

#[test]
fn snapshot_round_trip_reproduces_all_six_collections() {
    let store = filled_store();
    let bytes = write_snapshot(&store);
    let mut restored = Store::new();
    let report = read_snapshot(&mut restored, &bytes);
    assert_eq!(report, RestoreReport { stored: 10, complete: true });
    for collection in ALL {
        assert_eq!(restored.entries(collection), store.entries(collection));
        assert_eq!(restored.count(collection), store.count(collection));
    }
    assert_eq!(get_document_safe(&restored, "doc_2"), get_document_safe(&store, "doc_2"));
    assert_eq!(write_snapshot(&restored), bytes);
}

#[test]
fn snapshot_cut_in_the_fifth_collection_restores_the_first_four() {
    let store = filled_store();
    let bytes = write_snapshot(&store);
    let fifth = body_start(&store, 4);
    let sixth = body_start(&store, 5);
    for cut in fifth..sixth {
        let mut restored = Store::new();
        let report = read_snapshot(&mut restored, &bytes[..cut]);
        assert!(!report.complete);
        for collection in ALL.iter().take(4) {
            assert_eq!(restored.entries(*collection), store.entries(*collection));
        }
        assert!(restored.count(Collection::Nfts) < 2);
        assert_eq!(restored.count(Collection::DocumentNfts), 0);
    }
    // one whole pair of the fifth collection is kept when the cut is after it
    let mut restored = Store::new();
    read_snapshot(&mut restored, &bytes[..sixth - 1]);
    assert_eq!(restored.entries(Collection::Nfts), vec![(b"tx_1".to_vec(), vec![1, 2, 3])]);
}

#[test]
fn snapshot_cut_in_the_first_collection_keeps_the_pairs_before() {
    let store = filled_store();
    let bytes = write_snapshot(&store);
    let first_pair = store.entries(Collection::Documents)[0].clone();
    let cut = 48 + 8 + first_pair.0.len() + first_pair.1.len() + 3;
    let mut restored = Store::new();
    let report = read_snapshot(&mut restored, &bytes[..cut]);
    assert_eq!(report, RestoreReport { stored: 1, complete: false });
    assert_eq!(restored.entries(Collection::Documents), vec![first_pair]);
    assert_eq!(restored.count(Collection::Institutions), 0);
}

#[test]
fn pair_with_a_key_that_is_not_text_is_passed_over() {
    let mut bytes: Vec<u8> = Vec::new();
    for count in [3u64, 0, 1, 0, 0, 0] {
        bytes.extend_from_slice(&count.to_le_bytes());
    }
    bytes.extend_from_slice(&[1, 0, 0, 0, b'a', 1, 0, 0, 0, 1]);
    bytes.extend_from_slice(&[2, 0, 0, 0, 0xff, 0xfe, 1, 0, 0, 0, 2]);
    bytes.extend_from_slice(&[1, 0, 0, 0, b'c', 1, 0, 0, 0, 3]);
    // identities need not be text
    bytes.extend_from_slice(&[2, 0, 0, 0, 0xff, 0xfe, 0, 0, 0, 0]);
    let mut store = Store::new();
    let report = read_snapshot(&mut store, &bytes);
    assert_eq!(report, RestoreReport { stored: 3, complete: true });
    assert_eq!(
        store.entries(Collection::Documents),
        vec![(b"a".to_vec(), vec![1]), (b"c".to_vec(), vec![3])]
    );
    assert_eq!(store.entries(Collection::UserProfiles), vec![(vec![0xff, 0xfe], vec![])]);
}

#[test]
fn restoring_replaces_what_a_key_held() {
    let mut store = Store::new();
    store.put_raw(Collection::Nfts, b"k".to_vec(), vec![1]);
    store.put_raw(Collection::Nfts, b"z".to_vec(), vec![2]);
    let mut bytes: Vec<u8> = Vec::new();
    for count in [0u64, 0, 0, 0, 1, 0] {
        bytes.extend_from_slice(&count.to_le_bytes());
    }
    bytes.extend_from_slice(&[1, 0, 0, 0, b'k', 1, 0, 0, 0, 9]);
    read_snapshot(&mut store, &bytes);
    assert_eq!(
        store.entries(Collection::Nfts),
        vec![(b"k".to_vec(), vec![9]), (b"z".to_vec(), vec![2])]
    );
}

#[test]
fn a_count_larger_than_the_pairs_stops_the_reading() {
    let mut bytes: Vec<u8> = Vec::new();
    for count in [u64::MAX, 1, 0, 0, 0, 0] {
        bytes.extend_from_slice(&count.to_le_bytes());
    }
    bytes.extend_from_slice(&[1, 0, 0, 0, b'a', 0, 0, 0, 0]);
    let mut store = Store::new();
    let report = read_snapshot(&mut store, &bytes);
    assert_eq!(report, RestoreReport { stored: 1, complete: false });
    assert_eq!(store.count(Collection::Documents), 1);
    assert_eq!(store.count(Collection::Institutions), 0);
}

#[test]
fn take_pair_reads_one_pair() {
    let bytes = [9, 2, 0, 0, 0, 5, 6, 1, 0, 0, 0, 7, 8];
    assert_eq!(take_pair(&bytes, 1), Some((vec![5, 6], vec![7], 12)));
    assert_eq!(take_pair(&bytes, 0), None);
    assert_eq!(take_pair(&bytes[..11], 1), None);
    assert_eq!(take_pair(&bytes, 13), None);
}
