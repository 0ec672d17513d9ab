use notary_store::access::store_document_safe;
use notary_store::queries::{
    bytes_below, get_document_file, get_documents_by_owner, is_document_owned_by, query_documents,
    DocumentSummary,
};
use notary_store::records::{Document, DocumentType};
use notary_store::store::Store;

fn add(store: &mut Store, id: &str, owner: u8, name: &str, institution: &str, date: u64) {
    let mut document = Document::default();
    document.document_id = id.to_string();
    document.owner = vec![owner];
    document.name = name.to_string();
    document.institution_id = institution.to_string();
    document.publication_date = date;
    document.file_data = vec![owner; 3];
    let DocumentType::EarningRelease(data) = &mut document.document_data;
    data.quarter = (date % 4) as u8 + 1;
    data.year = 2020 + (date / 100) as u16;
    store_document_safe(store, id, &document).unwrap();
}

fn library() -> Store {
    let mut store = Store::new();
    add(&mut store, "a", 1, "delta", "INST_2", 300);
    add(&mut store, "b", 2, "alpha", " INST_1 ", 100);
    add(&mut store, "c", 1, "charlie", "INST_1", 200);
    add(&mut store, "d", 1, "bravo", "", 100);
    add(&mut store, "e", 2, "alpha", "INST_2", 301);
    store
}

fn ids(found: &(Vec<Document>, u64)) -> Vec<&str> {
    found.0.iter().map(|d| d.document_id.as_str()).collect()
}

fn all(
    store: &Store,
    sort_by: Option<&str>,
    sort_order: Option<&str>,
    offset: Option<u64>,
    limit: Option<u64>,
) -> (Vec<Document>, u64) {
    query_documents(
        store,
        None,
        None,
        None,
        None,
        None,
        None,
        None,
        None,
        offset,
        limit,
        sort_by.map(|s| s.to_string()),
        sort_order.map(|s| s.to_string()),
        None,
    )
}

#[test]
fn documents_come_newest_first_unless_asked_otherwise() {
    let store = library();
    let found = all(&store, None, None, None, None);
    assert_eq!(found.1, 5);
    // "b" and "d" tie on the date and keep the order of their keys
    assert_eq!(ids(&found), vec!["e", "a", "c", "b", "d"]);
    assert_eq!(found.0[0].file_data, vec![2, 2, 2]);
    assert_eq!(ids(&all(&store, Some("date"), Some("asc"), None, None)), vec!["b", "d", "c", "a", "e"]);
    assert_eq!(ids(&all(&store, Some("anything"), Some("up"), None, None)), vec!["e", "a", "c", "b", "d"]);
}

#[test]
fn documents_sorted_by_text() {
    let store = library();
    assert_eq!(ids(&all(&store, Some("name"), Some("asc"), None, None)), vec!["b", "e", "d", "c", "a"]);
    assert_eq!(ids(&all(&store, Some("name"), Some("desc"), None, None)), vec!["a", "c", "d", "b", "e"]);
    assert_eq!(ids(&all(&store, Some("name"), None, None, None)), vec!["a", "c", "d", "b", "e"]);
    // institution ids are compared as they are stored, untrimmed
    assert_eq!(
        ids(&all(&store, Some("institution"), Some("asc"), None, None)),
        vec!["d", "b", "c", "a", "e"]
    );
}

#[test]
fn pages() {
    let store = library();
    assert_eq!(ids(&all(&store, None, None, Some(1), Some(2))), vec!["a", "c"]);
    assert_eq!(all(&store, None, None, Some(1), Some(2)).1, 5);
    assert_eq!(ids(&all(&store, None, None, Some(4), Some(2))), vec!["d"]);
    assert_eq!(ids(&all(&store, None, None, Some(5), Some(2))), Vec::<&str>::new());
    assert_eq!(ids(&all(&store, None, None, Some(u64::MAX), Some(u64::MAX))), Vec::<&str>::new());
    assert_eq!(ids(&all(&store, None, None, Some(3), Some(u64::MAX))), vec!["b", "d"]);
    assert_eq!(ids(&all(&store, None, None, None, Some(0))), Vec::<&str>::new());
    let mut many = Store::new();
    for i in 0..12u64 {
        add(&mut many, &format!("k{:02}", i), 1, "n", "", i);
    }
    let first = all(&many, None, None, None, None);
    assert_eq!(first.1, 12);
    assert_eq!(first.0.len(), 10);
    assert_eq!(first.0[0].document_id, "k11");
    assert_eq!(first.0[9].document_id, "k02");
}

#[test]
fn filters() {
    let store = library();
    let by = |doc_id: Option<&str>,
              owner: Option<u8>,
              institution: Option<&str>,
              kind: Option<&str>,
              quarter: Option<u8>,
              year: Option<u16>,
              start: Option<u64>,
              end: Option<u64>| {
        query_documents(
            &store,
            doc_id.map(|s| s.to_string()),
            owner.map(|o| vec![o]),
            institution.map(|s| s.to_string()),
            kind.map(|s| s.to_string()),
            quarter,
            year,
            start,
            end,
            None,
            None,
            Some("date".to_string()),
            Some("asc".to_string()),
            Some(false),
        )
    };
    let found = by(Some("c"), None, None, None, None, None, None, None);
    assert_eq!(ids(&found), vec!["c"]);
    assert_eq!(found.1, 1);
    assert!(found.0[0].file_data.is_empty());
    assert_eq!(found.0[0].name, "charlie");
    assert_eq!(ids(&by(None, Some(1), None, None, None, None, None, None)), vec!["d", "c", "a"]);
    assert_eq!(ids(&by(None, Some(9), None, None, None, None, None, None)), Vec::<&str>::new());
    assert_eq!(ids(&by(None, None, Some("INST_1"), None, None, None, None, None)), vec!["b", "c"]);
    assert_eq!(ids(&by(None, None, Some("  INST_2"), None, None, None, None, None)), vec!["a", "e"]);
    assert_eq!(ids(&by(None, None, Some("  "), None, None, None, None, None)), vec!["d"]);
    assert_eq!(by(None, None, None, Some("EarningRelease"), None, None, None, None).1, 5);
    assert_eq!(by(None, None, None, Some("Other"), None, None, None, None).1, 0);
    // quarter and year only count together
    assert_eq!(by(None, None, None, None, Some(1), None, None, None).1, 5);
    assert_eq!(by(None, None, None, None, None, Some(2021), None, None).1, 5);
    assert_eq!(ids(&by(None, None, None, None, Some(1), Some(2021), None, None)), vec!["b", "d"]);
    assert_eq!(ids(&by(None, None, None, None, Some(1), Some(2023), None, None)), vec!["a"]);
    assert_eq!(ids(&by(None, None, None, None, None, None, Some(200), None)), vec!["c", "a", "e"]);
    assert_eq!(ids(&by(None, None, None, None, None, None, None, Some(200))), vec!["b", "d", "c"]);
    assert_eq!(ids(&by(None, None, None, None, None, None, Some(200), Some(300))), vec!["c", "a"]);
    assert_eq!(ids(&by(None, Some(2), Some("INST_2"), None, None, None, Some(1), None)), vec!["e"]);
}

#[test]
fn documents_of_an_owner_in_brief() {
    let store = library();
    assert_eq!(
        get_documents_by_owner(&store, &vec![2]),
        vec![
            DocumentSummary {
                id: "e".to_string(),
                document_name: "alpha".to_string(),
                file_type: String::new(),
                publication_date: 301,
            },
            DocumentSummary {
                id: "b".to_string(),
                document_name: "alpha".to_string(),
                file_type: String::new(),
                publication_date: 100,
            },
        ]
    );
    assert!(get_documents_by_owner(&store, &vec![7]).is_empty());
    assert!(is_document_owned_by(&store, "a", &vec![1]));
    assert!(!is_document_owned_by(&store, "a", &vec![2]));
    assert!(!is_document_owned_by(&store, "zz", &vec![1]));
    assert_eq!(get_document_file(&store, "a"), Some(vec![1, 1, 1]));
    assert_eq!(get_document_file(&store, "zz"), None);
}

#[test]
fn byte_strings_in_order() {
    assert!(bytes_below(&[], &[0]));
    assert!(!bytes_below(&[], &[]));
    assert!(!bytes_below(&[0], &[]));
    assert!(bytes_below(&[1, 2], &[1, 3]));
    assert!(bytes_below(&[1, 2], &[1, 2, 0]));
    assert!(!bytes_below(&[1, 2], &[1, 2]));
    assert!(!bytes_below(&[2], &[1, 9]));
    assert_eq!(bytes_below(b"alpha", b"bravo"), "alpha" < "bravo");
}
