//! Which byte strings are encodings: exactly those that a record is read from.

use crate::codec::{
    decode_document_spec, decode_institution_spec, decode_user_profile_spec, document_fields, document_of_fields, document_schema, encode_document_spec,
    encode_institution_spec, encode_user_profile_spec, institution_fields, institution_of_fields,
    institution_schema, lemma_empty_text, parse_document, parse_institution,
    parse_user_profile, text_field, user_profile_fields, user_profile_of_fields,
    user_profile_schema, };
use crate::fields::{
    all_fit, decode_fields_spec, fields_bytes, kinds_of, parse_field, parse_fields, FieldKind,
    FieldValue,
};
use crate::records::{
    document_sentinel, institution_sentinel, user_profile_sentinel, DocumentView, InstitutionView,
    UserProfileView,
};
use crate::wire::{read_run, read_u64, u64_bytes};
use vstd::bytes::*;
use vstd::prelude::*;
use vstd::utf8::*;

verus! {

/// A field that was read spells exactly the bytes it was read from.
pub proof fn lemma_parse_field_exact(bytes: Seq<u8>, pos: int, kind: FieldKind)
    requires
        parse_field(bytes, pos, kind).is_some(),
    ensures
        ({
            let (field, end) = parse_field(bytes, pos, kind).unwrap();
            &&& 0 <= pos <= end <= bytes.len()
            &&& field.kind() == kind
            &&& field.fits()
            &&& field.bytes() == bytes.subrange(pos, end)
        }),
{
    lemma_auto_spec_u64_to_from_le_bytes();
    let head = read_u64(bytes, pos).unwrap();
    let (field, end) = parse_field(bytes, pos, kind).unwrap();
    assert(u64_bytes(head) == bytes.subrange(pos, pos + 8));
    match kind {
        FieldKind::Int => {},
        FieldKind::Blob => {
            let run = read_run(bytes, pos + 8, head as int).unwrap();
            assert(run.len() == head);
            assert(field.bytes() =~= bytes.subrange(pos, end));
        },
    }
}

/// Fields that were read spell exactly the bytes they were read from.
pub proof fn lemma_parse_fields_exact(bytes: Seq<u8>, schema: Seq<FieldKind>)
    requires
        parse_fields(bytes, 0, schema).is_some(),
    ensures
        ({
            let (fields, end) = parse_fields(bytes, 0, schema).unwrap();
            &&& 0 <= end <= bytes.len()
            &&& kinds_of(fields) == schema
            &&& all_fit(fields)
            &&& fields_bytes(fields) == bytes.subrange(0, end)
        }),
    decreases schema.len(),
{
    let (fields, end) = parse_fields(bytes, 0, schema).unwrap();
    if schema.len() == 0 {
        assert(kinds_of(fields) =~= schema);
        assert(fields_bytes(fields) =~= bytes.subrange(0, end));
    } else {
        let (init, next) = parse_fields(bytes, 0, schema.drop_last()).unwrap();
        lemma_parse_fields_exact(bytes, schema.drop_last());
        lemma_parse_field_exact(bytes, next, schema.last());
        let (field, _) = parse_field(bytes, next, schema.last()).unwrap();
        assert(fields == init.push(field));
        assert(fields.drop_last() =~= init);
        assert(fields.last() == field);
        assert(kinds_of(fields) =~= schema) by {
            assert forall|i: int| 0 <= i < schema.len() implies kinds_of(fields)[i] == schema[i] by {
                if i < init.len() {
                    assert(kinds_of(init)[i] == schema.drop_last()[i]);
                }
            }
        }
        assert(all_fit(fields)) by {
            assert forall|i: int| 0 <= i < fields.len() implies (#[trigger] fields[i]).fits() by {
                if i < init.len() {
                    assert(init[i].fits());
                }
            }
        }
        assert(fields_bytes(fields) =~= bytes.subrange(0, end));
    }
}

/// The field format is canonical: bytes that decode are the encoding of what
/// they decode to.
pub proof fn law_fields_canonical(bytes: Seq<u8>, schema: Seq<FieldKind>)
    requires
        decode_fields_spec(bytes, schema).is_some(),
    ensures
        fields_bytes(decode_fields_spec(bytes, schema).unwrap()) == bytes,
        kinds_of(decode_fields_spec(bytes, schema).unwrap()) == schema,
        all_fit(decode_fields_spec(bytes, schema).unwrap()),
{
    lemma_parse_fields_exact(bytes, schema);
    assert(bytes.subrange(0, bytes.len() as int) =~= bytes);
}

/// A text field that was read is the field of its text.
pub proof fn lemma_text_field_back(field: FieldValue)
    requires
        field.kind() == FieldKind::Blob,
        field.is_text(),
    ensures
        text_field(field.text()) == field,
{
    decode_utf8_encode_utf8(field.blob());
}

/// Bytes decode to an institution exactly when they are the encoding of one,
/// and then of the institution they decode to.
pub proof fn law_institution_canonical(bytes: Seq<u8>)
    requires
        parse_institution(bytes).is_some(),
    ensures
        encode_institution_spec(parse_institution(bytes).unwrap()) == bytes,
{
    law_fields_canonical(bytes, institution_schema());
    let f = decode_fields_spec(bytes, institution_schema()).unwrap();
    let v = institution_of_fields(f);
    assert forall|i: int| 0 <= i < 5 implies f[i].kind() == institution_schema()[i] by {
        assert(kinds_of(f)[i] == f[i].kind());
    }
    lemma_text_field_back(f[0]);
    lemma_text_field_back(f[2]);
    lemma_text_field_back(f[3]);
    assert(institution_fields(v) =~= f);
}

/// Bytes decode to a user profile exactly when they are the encoding of one,
/// and then of the profile they decode to.
pub proof fn law_user_profile_canonical(bytes: Seq<u8>)
    requires
        parse_user_profile(bytes).is_some(),
    ensures
        encode_user_profile_spec(parse_user_profile(bytes).unwrap()) == bytes,
{
    law_fields_canonical(bytes, user_profile_schema());
    let f = decode_fields_spec(bytes, user_profile_schema()).unwrap();
    let v = user_profile_of_fields(f);
    assert forall|i: int| 0 <= i < 8 implies f[i].kind() == user_profile_schema()[i] by {
        assert(kinds_of(f)[i] == f[i].kind());
    }
    lemma_text_field_back(f[1]);
    lemma_text_field_back(f[2]);
    lemma_text_field_back(f[4]);
    lemma_text_field_back(f[5]);
    lemma_empty_text();
    if f[3].number() != 2 {
        assert(f[4].blob() =~= Seq::<u8>::empty());
    }
    assert(user_profile_fields(v) =~= f);
}

/// Bytes decode to a document exactly when they are the encoding of one, and
/// then of the document they decode to.
pub proof fn law_document_canonical(bytes: Seq<u8>)
    requires
        parse_document(bytes).is_some(),
    ensures
        encode_document_spec(parse_document(bytes).unwrap()) == bytes,
{
    law_fields_canonical(bytes, document_schema());
    let f = decode_fields_spec(bytes, document_schema()).unwrap();
    let v = document_of_fields(f);
    assert forall|i: int| 0 <= i < 25 implies f[i].kind() == document_schema()[i] by {
        assert(kinds_of(f)[i] == f[i].kind());
    }
    lemma_text_field_back(f[0]);
    lemma_text_field_back(f[1]);
    lemma_text_field_back(f[3]);
    lemma_text_field_back(f[4]);
    lemma_text_field_back(f[5]);
    lemma_text_field_back(f[7]);
    lemma_text_field_back(f[20]);
    lemma_text_field_back(f[22]);
    assert(document_fields(v) =~= f);
}

/// Bytes that are the encoding of no document decode to the empty document.
pub proof fn law_invalid_document_bytes(bytes: Seq<u8>)
    requires
        forall|v: DocumentView| #[trigger] encode_document_spec(v) != bytes,
    ensures
        decode_document_spec(bytes) == document_sentinel(),
{
    if parse_document(bytes).is_some() {
        law_document_canonical(bytes);
        assert(encode_document_spec(parse_document(bytes).unwrap()) == bytes);
    }
}

/// Bytes that are the encoding of no institution decode to the empty
/// institution.
pub proof fn law_invalid_institution_bytes(bytes: Seq<u8>)
    requires
        forall|v: InstitutionView| #[trigger] encode_institution_spec(v) != bytes,
    ensures
        decode_institution_spec(bytes) == institution_sentinel(),
{
    if parse_institution(bytes).is_some() {
        law_institution_canonical(bytes);
        assert(encode_institution_spec(parse_institution(bytes).unwrap()) == bytes);
    }
}

/// Bytes that are the encoding of no user profile decode to the empty
/// profile.
pub proof fn law_invalid_user_profile_bytes(bytes: Seq<u8>)
    requires
        forall|v: UserProfileView| #[trigger] encode_user_profile_spec(v) != bytes,
    ensures
        decode_user_profile_spec(bytes) == user_profile_sentinel(),
{
    if parse_user_profile(bytes).is_some() {
        law_user_profile_canonical(bytes);
        assert(encode_user_profile_spec(parse_user_profile(bytes).unwrap()) == bytes);
    }
}

} // verus!
