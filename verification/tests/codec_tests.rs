use notary_store::codec::{
    decode_document, decode_institution, decode_user_profile, encode_document, encode_institution,
    encode_user_profile, try_decode_document, try_decode_institution, try_decode_user_profile,
};
use notary_store::fields::{decode_fields, encode_fields, Field, FieldKind};
use notary_store::records::{Document, Institution, UserProfile, UserRole};
use notary_store::token_list::{decode_token_list, encode_token_list, try_decode_token_list};
use notary_store::wire::{get_run, get_u32, get_u64, put_run, put_u32, put_u64};

fn institution() -> Institution {
    Institution {
        institution_id: "I1".to_string(),
        owner: vec![7],
        name: "Né".to_string(),
        email: "".to_string(),
        created_at: 0x0102,
    }
}

#[test]
fn wire_numbers_are_little_endian() {
    let mut out = vec![9u8];
    put_u32(&mut out, 0x0403_0201);
    put_u64(&mut out, 0x0807_0605_0403_0201);
    put_run(&mut out, &[0xaa, 0xbb]);
    assert_eq!(out, vec![9, 1, 2, 3, 4, 1, 2, 3, 4, 5, 6, 7, 8, 0xaa, 0xbb]);
    assert_eq!(get_u32(&out, 1), Some(0x0403_0201));
    assert_eq!(get_u64(&out, 5), Some(0x0807_0605_0403_0201));
    assert_eq!(get_u64(&out, 8), None);
    assert_eq!(get_u32(&out, 12), None);
    assert_eq!(get_u32(&out, usize::MAX), None);
    assert_eq!(get_run(&out, 13, 2), Some(vec![0xaa, 0xbb]));
    assert_eq!(get_run(&out, 15, 0), Some(vec![]));
    assert_eq!(get_run(&out, 14, 2), None);
    assert_eq!(get_run(&out, 16, 0), None);
}

#[test]
fn fields_are_written_with_their_lengths() {
    let fields = vec![Field::Int(1), Field::Blob(vec![5, 6])];
    let bytes = encode_fields(&fields);
    assert_eq!(bytes, vec![1, 0, 0, 0, 0, 0, 0, 0, 2, 0, 0, 0, 0, 0, 0, 0, 5, 6]);
    let back = decode_fields(&bytes, &[FieldKind::Int, FieldKind::Blob]).unwrap();
    assert_eq!(encode_fields(&back), bytes);
    assert!(decode_fields(&bytes, &[FieldKind::Int]).is_none());
    assert!(decode_fields(&bytes, &[FieldKind::Blob, FieldKind::Int]).is_none());
    assert!(decode_fields(&bytes[..17], &[FieldKind::Int, FieldKind::Blob]).is_none());
    assert!(decode_fields(&[], &[]).is_some());
    assert!(decode_fields(&[0], &[]).is_none());
    let huge = vec![0xff; 8];
    assert!(decode_fields(&huge, &[FieldKind::Blob]).is_none());
}

#[test]
fn institution_bytes_are_its_fields_in_order() {
    let bytes = encode_institution(&institution());
    let mut expected: Vec<u8> = Vec::new();
    expected.extend_from_slice(&2u64.to_le_bytes());
    expected.extend_from_slice(b"I1");
    expected.extend_from_slice(&1u64.to_le_bytes());
    expected.push(7);
    expected.extend_from_slice(&3u64.to_le_bytes());
    expected.extend_from_slice("Né".as_bytes());
    expected.extend_from_slice(&0u64.to_le_bytes());
    expected.extend_from_slice(&0x0102u64.to_le_bytes());
    assert_eq!(bytes, expected);
    assert_eq!(decode_institution(&bytes), institution());
    assert_eq!(try_decode_institution(&bytes), Some(institution()));
}

#[test]
fn institution_with_bytes_missing_or_added_is_the_empty_one() {
    let bytes = encode_institution(&institution());
    for cut in 0..bytes.len() {
        assert_eq!(try_decode_institution(&bytes[..cut]), None);
        assert!(decode_institution(&bytes[..cut]).is_sentinel());
    }
    let mut longer = bytes.clone();
    longer.push(0);
    assert_eq!(try_decode_institution(&longer), None);
    assert_eq!(decode_institution(&longer), Institution::default());
}

#[test]
fn text_that_is_not_utf8_makes_the_record_empty() {
    let mut bytes = encode_institution(&institution());
    bytes[8] = 0xff;
    assert_eq!(try_decode_institution(&bytes), None);
    assert!(decode_institution(&bytes).is_sentinel());
}

#[test]
fn profile_role_tags() {
    let mut profile = UserProfile::default();
    profile.internet_identity = vec![1];
    profile.role = UserRole::SuperAdmin;
    let bytes = encode_user_profile(&profile);
    // identity, name, email, then the role tag
    let tag_at = (8 + 1) + 8 + 8;
    assert_eq!(bytes[tag_at], 0);
    assert_eq!(decode_user_profile(&bytes), profile);

    let mut wrong_tag = bytes.clone();
    wrong_tag[tag_at] = 3;
    assert_eq!(try_decode_user_profile(&wrong_tag), None);
    assert!(decode_user_profile(&wrong_tag).is_sentinel());

    profile.role = UserRole::InstitutionMember("x".to_string());
    let member = encode_user_profile(&profile);
    assert_eq!(member[tag_at], 2);
    assert_eq!(decode_user_profile(&member), profile);
    // a role that names no institution must not carry one
    let mut stray = member.clone();
    stray[tag_at] = 1;
    assert_eq!(try_decode_user_profile(&stray), None);
}

#[test]
fn document_round_trip_and_range_checks() {
    let mut document = Document::default();
    document.document_id = "d".to_string();
    document.file_data = vec![0; 1000];
    let bytes = encode_document(&document);
    assert_eq!(decode_document(&bytes), document);
    assert_eq!(try_decode_document(&bytes), Some(document));
    assert_eq!(try_decode_document(&[]), None);
    assert_eq!(decode_document(&[]), Document::default());
    assert!(decode_document(&[1, 2, 3]).is_sentinel());
    // the quarter is the ninth field: six empty texts but the id, the tag, one text
    let quarter_at = 8 + (8 + 1) + (8 + 1) + 8 + 8 + 8 + 8 + 8;
    let mut wide = bytes.clone();
    wide[quarter_at + 1] = 1;
    assert_eq!(try_decode_document(&wide), None);
    let mut fine = bytes.clone();
    fine[quarter_at] = 4;
    let quarter = match try_decode_document(&fine).unwrap().document_data {
        notary_store::records::DocumentType::EarningRelease(data) => data.quarter,
    };
    assert_eq!(quarter, 4);
}

#[test]
fn token_list_bytes() {
    let ids = vec!["a".to_string(), "bc".to_string()];
    let bytes = encode_token_list(&ids);
    let mut expected: Vec<u8> = Vec::new();
    expected.extend_from_slice(&2u64.to_le_bytes());
    expected.extend_from_slice(&1u64.to_le_bytes());
    expected.push(b'a');
    expected.extend_from_slice(&2u64.to_le_bytes());
    expected.extend_from_slice(b"bc");
    assert_eq!(bytes, expected);
    assert_eq!(decode_token_list(&bytes), ids);
    assert_eq!(encode_token_list(&vec![]), vec![0u8; 8]);
    assert_eq!(try_decode_token_list(&[0u8; 8]), Some(vec![]));
    assert_eq!(try_decode_token_list(&[]), None);
    assert_eq!(try_decode_token_list(&bytes[..bytes.len() - 1]), None);
    assert_eq!(try_decode_token_list(&[0xff; 8]), None);
    let mut longer = bytes.clone();
    longer.push(1);
    assert_eq!(try_decode_token_list(&longer), None);
    assert!(decode_token_list(&longer).is_empty());
    let mut not_text = bytes.clone();
    not_text[16] = 0xff;
    assert_eq!(try_decode_token_list(&not_text), None);
}
