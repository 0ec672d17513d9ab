use notary_store::access::{
    create_document_safe, create_institution_safe, create_user_profile_safe, get_document_nft,
    get_document_safe, get_institution_safe, get_nft_record, get_user_profile_safe,
    list_user_identities, put_nft_record, set_document_nft, store_document_safe,
    update_institution_safe, StoreError,
};
use notary_store::users::{email_exists, login_user, register_user};
use notary_store::documents::{delete_document, upload_file_and_publish_document, DocumentResponse};
use notary_store::helpers::calculate_file_hash;
use notary_store::institutions::{
    create_institution, delete_institution, get_all_institutions, get_institutions_by_owner,
    update_institution,
};
use notary_store::lifecycle_logger::get_lifecycle_logger;
use notary_store::logging::{LogEntry, LogSeverity};
use notary_store::records::{Document, Institution, UserProfile, UserRole};
use notary_store::store::{Collection, Store};

fn refusal(message: &str) -> DocumentResponse {
    DocumentResponse {
        success: false,
        document_id: String::new(),
        error_message: message.to_string(),
        file_hash: String::new(),
    }
}

fn upload(file: Vec<u8>, file_type: &str, institution: &str) -> Document {
    let mut document = Document::default();
    document.name = "report".to_string();
    document.owner = vec![1, 2];
    document.file_data = file;
    document.file_type = file_type.to_string();
    document.institution_id = institution.to_string();
    document.document_id = "ignored".to_string();
    document.file_hash = "ignored".to_string();
    document
}

#[test]
fn publishing_checks_the_file_first() {
    let mut store = Store::new();
    assert_eq!(
        upload_file_and_publish_document(&mut store, upload(vec![], "text/plain", ""), 1),
        refusal("File data cannot be empty. Please upload a valid file.")
    );
    assert_eq!(
        upload_file_and_publish_document(
            &mut store,
            upload(vec![0; 10 * 1024 * 1024 + 1], "text/plain", ""),
            1
        ),
        refusal("File size exceeds 10MB limit")
    );
    assert_eq!(
        upload_file_and_publish_document(&mut store, upload(vec![1], "video/mp4", ""), 1),
        refusal(
            "Unsupported file type. Allowed types: image/jpeg, image/png, application/pdf, text/plain, application/vnd.ms-excel, application/vnd.openxmlformats-officedocument.spreadsheetml.sheet, application/vnd.ms-excel.sheet.macroEnabled.12, application/vnd.ms-excel.template.macroEnabled.12, application/vnd.ms-excel.addin.macroEnabled.12, application/vnd.ms-excel.sheet.binary.macroEnabled.12"
        )
    );
    assert_eq!(
        upload_file_and_publish_document(&mut store, upload(vec![1], "text/plain", " INST_7 "), 1),
        refusal("Specified institution does not exist")
    );
    assert_eq!(store.count(Collection::Documents), 0);
}

#[test]
fn publishing_stores_the_document_under_a_generated_id() {
    let mut store = Store::new();
    let mut institution = Institution::default();
    institution.institution_id = "INST_7".to_string();
    update_institution_safe(&mut store, "INST_7", &institution).unwrap();
    let response = upload_file_and_publish_document(
        &mut store,
        upload(vec![1, 2, 3], " application/pdf ", "  INST_7 "),
        1234,
    );
    let hash = calculate_file_hash(&[1, 2, 3]);
    assert_eq!(
        response,
        DocumentResponse {
            success: true,
            document_id: "document_1234".to_string(),
            error_message: String::new(),
            file_hash: hash.clone(),
        }
    );
    let mut expected = upload(vec![1, 2, 3], " application/pdf ", "INST_7");
    expected.document_id = "document_1234".to_string();
    expected.file_hash = hash;
    expected.publication_date = 1234;
    assert_eq!(get_document_safe(&store, "document_1234"), Some(expected));
    // no institution named: nothing to look up
    let response =
        upload_file_and_publish_document(&mut store, upload(vec![9], "text/plain", "   "), 5);
    assert!(response.success);
    assert_eq!(get_document_safe(&store, "document_5").unwrap().institution_id, "");
    assert_eq!(store.count(Collection::Documents), 2);
}

#[test]
fn deleting_a_document_needs_its_owner() {
    let mut store = Store::new();
    let mut document = upload(vec![1], "text/plain", "");
    document.document_id = "d".to_string();
    document.file_hash = "h".to_string();
    store_document_safe(&mut store, "d", &document).unwrap();
    assert_eq!(
        delete_document(&mut store, "d", &vec![4]),
        refusal(
            "Anonymous users cannot perform this action. Please log in with Internet Identity first."
        )
    );
    assert_eq!(delete_document(&mut store, "x", &vec![1, 2]), refusal("Document not found"));
    assert_eq!(
        delete_document(&mut store, "d", &vec![1]),
        refusal("Access denied. You can only delete your own documents.")
    );
    assert_eq!(store.count(Collection::Documents), 1);
    assert_eq!(
        delete_document(&mut store, "d", &vec![1, 2]),
        DocumentResponse {
            success: true,
            document_id: "d".to_string(),
            error_message: String::new(),
            file_hash: "h".to_string(),
        }
    );
    assert_eq!(store.count(Collection::Documents), 0);
}

#[test]
fn institutions_are_created_changed_and_deleted_by_their_owner() {
    let mut store = Store::new();
    let owner = vec![1u8, 1];
    assert_eq!(
        create_institution(&mut store, " a ".to_string(), "a@b.c".to_string(), &owner, 7),
        Err("Institution name must be between 2 and 100 characters (after trimming whitespace)"
            .to_string())
    );
    assert_eq!(
        create_institution(&mut store, "Uni".to_string(), "nobody".to_string(), &owner, 7),
        Err("Invalid email format".to_string())
    );
    assert_eq!(
        create_institution(&mut store, "Uni".to_string(), "a@b.c".to_string(), &owner, 7),
        Ok("INST_7".to_string())
    );
    assert_eq!(
        get_institution_safe(&store, "INST_7"),
        Some(Institution {
            institution_id: "INST_7".to_string(),
            owner: owner.clone(),
            name: "Uni".to_string(),
            email: "a@b.c".to_string(),
            created_at: 7,
        })
    );
    assert_eq!(
        create_institution(&mut store, "Other".to_string(), "a@b.c".to_string(), &owner, 7),
        Err("Generated institution ID already exists. Please try again.".to_string())
    );
    assert_eq!(
        update_institution(&mut store, "INST_8", "Uni2".to_string(), "x@y.z".to_string(), &owner),
        Err("Institution not found".to_string())
    );
    assert_eq!(
        update_institution(&mut store, "INST_7", "Uni2".to_string(), "x@y.z".to_string(), &vec![2]),
        Err("Only the institution owner can update metadata".to_string())
    );
    assert_eq!(
        update_institution(&mut store, "INST_7", "U".to_string(), "x@y.z".to_string(), &owner),
        Err("Institution name must be between 2 and 100 characters (after trimming whitespace)"
            .to_string())
    );
    assert_eq!(
        update_institution(&mut store, "INST_7", "Uni2".to_string(), "x".to_string(), &owner),
        Err("Email must be between 5 and 100 characters (after trimming whitespace)".to_string())
    );
    assert_eq!(
        update_institution(&mut store, "INST_7", "Uni2".to_string(), "x@y.z".to_string(), &owner),
        Ok(())
    );
    let changed = get_institution_safe(&store, "INST_7").unwrap();
    assert_eq!(changed.name, "Uni2");
    assert_eq!(changed.email, "x@y.z");
    assert_eq!(changed.created_at, 7);
    assert_eq!(
        delete_institution(&mut store, "INST_7", &vec![2]),
        Err("Only the institution owner can delete the institution".to_string())
    );
    assert_eq!(
        delete_institution(&mut store, "nope", &owner),
        Err("Institution not found".to_string())
    );
    assert_eq!(delete_institution(&mut store, "INST_7", &owner), Ok(()));
    assert_eq!(store.count(Collection::Institutions), 0);
}

#[test]
fn create_refuses_a_key_that_is_taken() {
    let mut store = Store::new();
    let mut document = Document::default();
    document.document_id = "d".to_string();
    assert_eq!(create_document_safe(&mut store, "d", &document), Ok(()));
    document.name = "second".to_string();
    assert_eq!(create_document_safe(&mut store, "d", &document), Err(StoreError::AlreadyExists));
    assert_eq!(get_document_safe(&store, "d").unwrap().name, "");
    assert_eq!(create_document_safe(&mut store, "e", &document), Err(StoreError::KeyMismatch));
    assert_eq!(StoreError::AlreadyExists.message(), "ID already exists");

    let mut institution = Institution::default();
    institution.institution_id = "i".to_string();
    assert_eq!(create_institution_safe(&mut store, "i", &institution), Ok(()));
    assert_eq!(
        create_institution_safe(&mut store, "i", &institution),
        Err(StoreError::AlreadyExists)
    );
    assert_eq!(create_institution_safe(&mut store, "", &Institution::default()), Err(StoreError::EmptyKey));

    let mut profile = UserProfile::default();
    profile.internet_identity = vec![2, 1];
    assert_eq!(create_user_profile_safe(&mut store, &vec![2, 1], &profile), Ok(()));
    assert_eq!(
        create_user_profile_safe(&mut store, &vec![2, 1], &profile),
        Err(StoreError::AlreadyExists)
    );
    profile.internet_identity = vec![1];
    assert_eq!(create_user_profile_safe(&mut store, &vec![1], &profile), Ok(()));
    assert_eq!(list_user_identities(&store), vec![vec![1], vec![2, 1]]);
}

#[test]
fn token_records_and_the_document_index() {
    let mut store = Store::new();
    assert_eq!(get_nft_record(&store, "tx"), None);
    assert_eq!(put_nft_record(&mut store, "tx", &vec![1, 2]), Ok(()));
    assert_eq!(put_nft_record(&mut store, "", &vec![1, 2]), Err(StoreError::EmptyKey));
    assert_eq!(get_nft_record(&store, "tx"), Some(vec![1, 2]));
    assert_eq!(get_document_nft(&store, "d"), None);
    assert_eq!(set_document_nft(&mut store, "d", "tx"), Ok(()));
    assert_eq!(set_document_nft(&mut store, "", "tx"), Err(StoreError::EmptyKey));
    assert_eq!(get_document_nft(&store, "d"), Some("tx".to_string()));
    store.put_raw(Collection::DocumentNfts, b"bad".to_vec(), vec![0xff]);
    assert_eq!(get_document_nft(&store, "bad"), Some(String::new()));
}

#[test]
fn institutions_are_listed_whole_and_by_owner() {
    let mut store = Store::new();
    assert!(get_all_institutions(&store).is_empty());
    for (id, owner) in [("b", 1u8), ("a", 2), ("c", 1)] {
        let mut institution = Institution::default();
        institution.institution_id = id.to_string();
        institution.owner = vec![owner];
        update_institution_safe(&mut store, id, &institution).unwrap();
    }
    store.put_raw(Collection::Institutions, b"bad".to_vec(), vec![1]);
    let names = |found: Vec<Institution>| -> Vec<String> {
        found.into_iter().map(|i| i.institution_id).collect()
    };
    assert_eq!(names(get_all_institutions(&store)), vec!["a", "b", "", "c"]);
    assert_eq!(names(get_institutions_by_owner(&store, &vec![1])), vec!["b", "c"]);
    assert_eq!(names(get_institutions_by_owner(&store, &vec![4])), vec![""]);
    assert!(get_institutions_by_owner(&store, &vec![9]).is_empty());
}

#[test]
fn the_first_start_is_logged() {
    assert_eq!(
        get_lifecycle_logger().log_initialization(99, "aaaaa-aa"),
        LogEntry {
            severity: LogSeverity::Info,
            event_type: "CANISTER_INIT".to_string(),
            module: "lifecycle".to_string(),
            message: "Canister initialized at timestamp 99".to_string(),
            detailed_data: Some("Canister ID: aaaaa-aa".to_string()),
        }
    );
}

#[test]
fn users_register_once_and_log_in() {
    let mut store = Store::new();
    let ana = vec![1u8, 2, 3];
    assert_eq!(
        register_user(&mut store, &vec![4], "Ana".to_string(), "ana@x.org".to_string(), 5),
        Err("Anonymous users cannot perform this action. Please log in with Internet Identity first."
            .to_string())
    );
    assert_eq!(
        register_user(&mut store, &ana, "A".to_string(), "ana@x.org".to_string(), 5),
        Err("Name must be between 2 and 100 characters (after trimming whitespace)".to_string())
    );
    assert_eq!(
        register_user(&mut store, &ana, "Ana".to_string(), "ana.x.org".to_string(), 5),
        Err("Invalid email format".to_string())
    );
    assert!(!email_exists(&store, "ana@x.org"));
    let profile = register_user(&mut store, &ana, "Ana".to_string(), "ana@x.org".to_string(), 5)
        .unwrap();
    assert_eq!(
        profile,
        UserProfile {
            internet_identity: ana.clone(),
            name: "Ana".to_string(),
            email: "ana@x.org".to_string(),
            role: UserRole::RegularUser,
            assigned_institution_id: String::new(),
            created_at: 5,
            last_login: 5,
        }
    );
    assert_eq!(get_user_profile_safe(&store, &ana), Some(profile));
    assert!(email_exists(&store, "ana@x.org"));
    assert!(!email_exists(&store, "Ana@x.org"));
    assert_eq!(
        register_user(&mut store, &ana, "Ana".to_string(), "other@x.org".to_string(), 6),
        Err("User already registered. Use login_user to track login.".to_string())
    );
    assert_eq!(
        register_user(&mut store, &vec![9], "Bob".to_string(), "ana@x.org".to_string(), 6),
        Err("Email already registered. Please use a different email address.".to_string())
    );
    assert_eq!(store.count(Collection::UserProfiles), 1);
    assert_eq!(
        login_user(&mut store, &vec![9], 7),
        Err("User not found. Please register first.".to_string())
    );
    assert_eq!(
        login_user(&mut store, &vec![4], 7),
        Err("Anonymous users cannot perform this action. Please log in with Internet Identity first."
            .to_string())
    );
    let again = login_user(&mut store, &ana, 7).unwrap();
    assert_eq!(again.last_login, 7);
    assert_eq!(again.created_at, 5);
    assert_eq!(get_user_profile_safe(&store, &ana), Some(again));
}
