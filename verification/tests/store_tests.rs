use notary_store::access::{
    get_document_safe, get_institution_safe, get_owner_tokens, get_user_profile_safe,
    list_document_ids, list_institution_ids, remove_document, remove_institution,
    remove_user_profile, same_bytes, set_owner_tokens, store_document_safe, update_institution_safe,
    update_user_profile_safe, StoreError,
};
use notary_store::records::{
    anonymous_identity, is_anonymous, CollectionCategory, ConsolidatedBalanceSheetData,
    ConsolidatedIncomeData, Document, DocumentType, EarningReleaseData, Institution, UserProfile,
    UserRole,
};
use notary_store::store::{Collection, Store};
use notary_store::typed_map::{RegionAllocator, TypedMap};

fn sample_document(id: &str, file: Vec<u8>) -> Document {
    Document {
        institution_id: "INST_1".to_string(),
        document_id: id.to_string(),
        owner: vec![1, 2, 3],
        name: "Annual report".to_string(),
        company_name: "Acme".to_string(),
        description: "Numbers".to_string(),
        document_data: DocumentType::EarningRelease(EarningReleaseData {
            earning_release_id: "er_1".to_string(),
            quarter: 3,
            year: 2025,
            consolidated_income_data: ConsolidatedIncomeData {
                gross_profit: 1.5f64.to_bits(),
                operating_profit: 2.5f64.to_bits(),
                ebitda: 0,
                profit_before_tax: u64::MAX,
                net_profit: 7,
            },
            consolidated_balance_sheet_data: ConsolidatedBalanceSheetData {
                total_assets: 10,
                total_equity: 20,
                total_liabilities: 30,
                total_liabilities_and_equity: 40,
            },
        }),
        document_category: CollectionCategory::EarningRelease,
        file_hash: "abc".to_string(),
        file_size: file.len() as u64,
        file_type: "application/pdf".to_string(),
        file_data: file,
        publication_date: 1_700_000_000,
    }
}

fn sample_institution(id: &str) -> Institution {
    Institution {
        institution_id: id.to_string(),
        owner: vec![9, 9],
        name: "University".to_string(),
        email: "dean@uni.example".to_string(),
        created_at: 42,
    }
}

fn sample_profile(identity: Vec<u8>) -> UserProfile {
    UserProfile {
        internet_identity: identity,
        name: "Ana".to_string(),
        email: "ana@example.org".to_string(),
        role: UserRole::InstitutionMember("INST_1".to_string()),
        assigned_institution_id: "INST_1".to_string(),
        created_at: 5,
        last_login: 6,
    }
}

#[test]
fn typed_map_put_get_remove() {
    let mut allocator = RegionAllocator::new();
    assert!(!allocator.is_granted(7));
    let segment = allocator.segment(7);
    assert_eq!(segment.tag(), 7);
    assert!(allocator.is_granted(7));
    let mut map = TypedMap::new(segment);
    assert_eq!(map.len(), 0);
    assert_eq!(map.put(vec![2], vec![20]), None);
    assert_eq!(map.put(vec![1], vec![10]), None);
    assert_eq!(map.put(vec![2], vec![21]), Some(vec![20]));
    assert_eq!(map.len(), 2);
    assert_eq!(map.get(&vec![2]), Some(vec![21]));
    assert_eq!(map.get(&vec![3]), None);
    assert!(map.contains(&vec![1]));
    assert!(!map.contains(&vec![3]));
    assert_eq!(map.remove(&vec![1]), Some(vec![10]));
    assert_eq!(map.remove(&vec![1]), None);
    assert_eq!(map.len(), 1);
}

#[test]
fn typed_map_iterates_in_ascending_key_order() {
    let mut allocator = RegionAllocator::new();
    let mut map = TypedMap::new(allocator.segment(0));
    map.put(vec![2, 0], vec![3]);
    map.put(vec![1, 9], vec![1]);
    map.put(vec![2], vec![2]);
    map.put(vec![], vec![0]);
    let entries = map.iter();
    assert_eq!(
        entries,
        vec![
            (vec![], vec![0]),
            (vec![1, 9], vec![1]),
            (vec![2], vec![2]),
            (vec![2, 0], vec![3]),
        ]
    );
}

#[test]
fn segments_do_not_alias() {
    let mut allocator = RegionAllocator::new();
    let mut first = TypedMap::new(allocator.segment(0));
    let mut second = TypedMap::new(allocator.segment(1));
    first.put(vec![1], vec![1]);
    second.put(vec![1], vec![2]);
    assert_eq!(first.get(&vec![1]), Some(vec![1]));
    assert_eq!(second.get(&vec![1]), Some(vec![2]));
    second.remove(&vec![1]);
    assert_eq!(first.len(), 1);
}

#[test]
fn new_store_is_empty() {
    let store = Store::new();
    for id in 0..6u8 {
        let collection = Collection::from_segment_id(id).unwrap();
        assert_eq!(collection.segment_id(), id);
        assert_eq!(store.count(collection), 0);
        assert!(store.entries(collection).is_empty());
    }
    assert_eq!(Collection::from_segment_id(6), None);
    assert!(Collection::Documents.has_text_keys());
    assert!(!Collection::UserProfiles.has_text_keys());
    assert!(!Collection::OwnerTokens.has_text_keys());
    assert!(Collection::DocumentNfts.has_text_keys());
}

#[test]
fn raw_writes_touch_one_collection() {
    let mut store = Store::new();
    assert_eq!(store.put_raw(Collection::Nfts, b"tx".to_vec(), vec![1]), None);
    assert_eq!(store.put_raw(Collection::Nfts, b"tx".to_vec(), vec![2]), Some(vec![1]));
    assert_eq!(store.count(Collection::Nfts), 1);
    assert_eq!(store.count(Collection::DocumentNfts), 0);
    assert!(store.contains_raw(Collection::Nfts, &b"tx".to_vec()));
    assert!(!store.contains_raw(Collection::Documents, &b"tx".to_vec()));
    assert_eq!(store.get_raw(Collection::Nfts, &b"tx".to_vec()), Some(vec![2]));
    assert_eq!(store.remove_raw(Collection::Nfts, &b"tx".to_vec()), Some(vec![2]));
    assert_eq!(store.count(Collection::Nfts), 0);
}

#[test]
fn stored_document_reads_back_the_same() {
    let mut store = Store::new();
    let document = sample_document("doc_1", vec![1, 2, 3]);
    assert_eq!(store_document_safe(&mut store, "doc_1", &document), Ok(()));
    assert_eq!(get_document_safe(&store, "doc_1"), Some(document));
    assert_eq!(get_document_safe(&store, "doc_2"), None);
}

#[test]
fn stored_institution_reads_back_the_same() {
    let mut store = Store::new();
    let institution = sample_institution("INST_1");
    assert_eq!(update_institution_safe(&mut store, "INST_1", &institution), Ok(()));
    assert_eq!(get_institution_safe(&store, "INST_1"), Some(institution));
}

#[test]
fn stored_profile_reads_back_the_same() {
    let mut store = Store::new();
    for role in [
        UserRole::SuperAdmin,
        UserRole::RegularUser,
        UserRole::InstitutionMember("INST_9".to_string()),
    ] {
        let mut profile = sample_profile(vec![7, 7, 7]);
        profile.role = role;
        assert_eq!(update_user_profile_safe(&mut store, &vec![7, 7, 7], &profile), Ok(()));
        assert_eq!(get_user_profile_safe(&store, &vec![7, 7, 7]), Some(profile));
    }
}

#[test]
fn write_under_another_key_is_refused_and_changes_nothing() {
    let mut store = Store::new();
    let kept = sample_document("A", vec![1]);
    assert_eq!(store_document_safe(&mut store, "A", &kept), Ok(()));
    let other = sample_document("B", vec![2]);
    assert_eq!(store_document_safe(&mut store, "A", &other), Err(StoreError::KeyMismatch));
    assert_eq!(store.count(Collection::Documents), 1);
    assert_eq!(get_document_safe(&store, "A"), Some(kept));
    assert_eq!(get_document_safe(&store, "B"), None);

    let institution = sample_institution("B");
    assert_eq!(
        update_institution_safe(&mut store, "A", &institution),
        Err(StoreError::KeyMismatch)
    );
    assert_eq!(store.count(Collection::Institutions), 0);

    let profile = sample_profile(vec![1]);
    assert_eq!(
        update_user_profile_safe(&mut store, &vec![2], &profile),
        Err(StoreError::KeyMismatch)
    );
    assert_eq!(store.count(Collection::UserProfiles), 0);
}

#[test]
fn write_under_an_empty_key_is_refused() {
    let mut store = Store::new();
    let document = sample_document("", vec![1]);
    assert_eq!(store_document_safe(&mut store, "", &document), Err(StoreError::EmptyKey));
    let institution = sample_institution("");
    assert_eq!(update_institution_safe(&mut store, "", &institution), Err(StoreError::EmptyKey));
    assert_eq!(store.count(Collection::Documents), 0);
    assert_eq!(store.count(Collection::Institutions), 0);
}

#[test]
fn store_errors_in_words() {
    assert_eq!(StoreError::EmptyKey.message(), "ID cannot be empty");
    assert_eq!(StoreError::KeyMismatch.message(), "ID mismatch");
    assert_eq!(StoreError::RecordTooLarge.message(), "Record too large");
}

#[test]
fn removed_records_are_returned_and_gone() {
    let mut store = Store::new();
    let document = sample_document("doc_1", vec![1]);
    store_document_safe(&mut store, "doc_1", &document).unwrap();
    assert_eq!(remove_document(&mut store, "doc_1"), Some(document));
    assert_eq!(remove_document(&mut store, "doc_1"), None);
    let institution = sample_institution("i");
    update_institution_safe(&mut store, "i", &institution).unwrap();
    assert_eq!(remove_institution(&mut store, "i"), Some(institution));
    let profile = sample_profile(vec![3]);
    update_user_profile_safe(&mut store, &vec![3], &profile).unwrap();
    assert_eq!(remove_user_profile(&mut store, &vec![3]), Some(profile));
    assert_eq!(remove_user_profile(&mut store, &vec![3]), None);
}

#[test]
fn ids_are_listed_in_ascending_order() {
    let mut store = Store::new();
    for id in ["doc_b", "doc_a", "doc_c", "läng"] {
        store_document_safe(&mut store, id, &sample_document(id, vec![1])).unwrap();
    }
    assert_eq!(list_document_ids(&store), vec!["doc_a", "doc_b", "doc_c", "läng"]);
    assert!(list_institution_ids(&store).is_empty());
}

#[test]
fn corrupted_bytes_read_as_the_empty_record() {
    let mut store = Store::new();
    store.put_raw(Collection::Documents, b"bad".to_vec(), vec![1, 2, 3]);
    store.put_raw(Collection::Institutions, b"bad".to_vec(), vec![]);
    store.put_raw(Collection::UserProfiles, vec![5], vec![0xff; 40]);
    let document = get_document_safe(&store, "bad").unwrap();
    assert!(document.is_sentinel());
    assert_eq!(document, Document::default());
    let institution = get_institution_safe(&store, "bad").unwrap();
    assert!(institution.is_sentinel());
    assert_eq!(institution, Institution::default());
    let profile = get_user_profile_safe(&store, &vec![5]).unwrap();
    assert!(profile.is_sentinel());
    assert_eq!(profile, UserProfile::default());
}

#[test]
fn the_anonymous_identity_is_the_byte_four() {
    assert_eq!(anonymous_identity(), vec![4]);
    assert!(is_anonymous(&anonymous_identity()));
    assert!(!is_anonymous(&vec![]));
    assert!(!is_anonymous(&vec![4, 0]));
    assert!(!is_anonymous(&vec![5]));
    assert_eq!(Document::default().owner, vec![4]);
    assert_eq!(UserProfile::default().internet_identity, vec![4]);
    assert_eq!(UserProfile::default().role, UserRole::RegularUser);
    assert!(!sample_document("d", vec![]).is_sentinel());
    assert_eq!(CollectionCategory::default(), CollectionCategory::EarningRelease);
}

#[test]
fn token_lists_round_trip_through_the_store() {
    let mut store = Store::new();
    let ids = vec!["doc_1".to_string(), "".to_string(), "doc_3".to_string()];
    assert_eq!(set_owner_tokens(&mut store, &vec![1, 2], &ids), Ok(()));
    assert_eq!(get_owner_tokens(&store, &vec![1, 2]), Some(ids));
    assert_eq!(get_owner_tokens(&store, &vec![1]), None);
    store.put_raw(Collection::OwnerTokens, vec![9], vec![1, 0, 0]);
    assert_eq!(get_owner_tokens(&store, &vec![9]), Some(vec![]));
}

#[test]
fn same_bytes_compares_whole_strings() {
    assert!(same_bytes(&[], &[]));
    assert!(same_bytes(&[1, 2], &[1, 2]));
    assert!(!same_bytes(&[1, 2], &[1, 3]));
    assert!(!same_bytes(&[1, 2], &[1]));
}
