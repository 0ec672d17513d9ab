//! The codec of each record type: a record is written as a fixed run of
//! fields, and bytes that do not spell such a run decode to the type's empty
//! record instead of failing.

use crate::fields::{
    all_fit, decode_fields, decode_fields_spec, encode_fields, fields_bytes, fields_view, kinds_of,
    law_fields_round_trip, Field, FieldKind, FieldValue,
};
use crate::records::{
    document_sentinel, institution_sentinel, user_profile_sentinel, CollectionCategory,
    ConsolidatedBalanceSheetData, ConsolidatedIncomeData, Document, DocumentType, DocumentTypeView,
    DocumentView, EarningReleaseData, EarningReleaseDataView, Institution, InstitutionView,
    UserProfile, UserProfileView, UserRole, UserRoleView,
};
use crate::hexadecimal::{hex_text, push_hex};
use crate::logging::{get_logger, LogEntry, LogSeverity};
use crate::text::{text_bytes, text_from_bytes};
use vstd::prelude::*;
use vstd::slice::*;
use vstd::string::*;
use vstd::utf8::*;

verus! {

impl FieldValue {
    /// The number in the field; 0 for a byte string.
    pub open spec fn number(self) -> u64 {
        match self {
            FieldValue::Int(x) => x,
            FieldValue::Blob(_) => 0,
        }
    }

    /// The byte string in the field; empty for a number.
    pub open spec fn blob(self) -> Seq<u8> {
        match self {
            FieldValue::Int(_) => Seq::empty(),
            FieldValue::Blob(b) => b,
        }
    }

    /// Whether the field's bytes are text.
    pub open spec fn is_text(self) -> bool {
        valid_utf8(self.blob())
    }

    /// The text that the field's bytes spell.
    pub open spec fn text(self) -> Seq<char> {
        decode_utf8(self.blob())
    }
}

/// The field that holds `text`.
pub open spec fn text_field(text: Seq<char>) -> FieldValue {
    FieldValue::Blob(encode_utf8(text))
}

/// A text field is read back as its text.
pub proof fn lemma_text_field(text: Seq<char>)
    ensures
        text_field(text).is_text(),
        text_field(text).text() == text,
        text_field(text).kind() == FieldKind::Blob,
{
    encode_utf8_valid_utf8(text);
    encode_utf8_decode_utf8(text);
}

fn int_at(fields: &Vec<Field>, i: usize) -> (x: u64)
    requires
        i < fields@.len(),
    ensures
        x == fields@[i as int]@.number(),
{
    match &fields[i] {
        Field::Int(x) => *x,
        Field::Blob(_) => 0,
    }
}

fn blob_at(fields: &Vec<Field>, i: usize) -> (b: Vec<u8>)
    requires
        i < fields@.len(),
    ensures
        b@ == fields@[i as int]@.blob(),
{
    match &fields[i] {
        Field::Int(_) => Vec::new(),
        Field::Blob(b) => slice_to_vec(b.as_slice()),
    }
}

fn text_at(fields: &Vec<Field>, i: usize) -> (t: Option<String>)
    requires
        i < fields@.len(),
    ensures
        t.is_some() == fields@[i as int]@.is_text(),
        t.is_some() ==> t.unwrap()@ == fields@[i as int]@.text(),
{
    text_from_bytes(blob_at(fields, i))
}

fn text_field_of(text: &String) -> (field: Field)
    ensures
        field@ == text_field(text@),
{
    Field::Blob(text_bytes(text.as_str()))
}

fn blob_field_of(bytes: &Vec<u8>) -> (field: Field)
    ensures
        field@ == FieldValue::Blob(bytes@),
{
    Field::Blob(slice_to_vec(bytes.as_slice()))
}

// ---------------------------------------------------------------- institutions

/// The fields of an institution, in order.
pub open spec fn institution_fields(v: InstitutionView) -> Seq<FieldValue> {
    seq![
        text_field(v.institution_id),
        FieldValue::Blob(v.owner),
        text_field(v.name),
        text_field(v.email),
        FieldValue::Int(v.created_at),
    ]
}

/// The kinds of the fields of an institution.
pub open spec fn institution_schema() -> Seq<FieldKind> {
    seq![FieldKind::Blob, FieldKind::Blob, FieldKind::Blob, FieldKind::Blob, FieldKind::Int]
}

/// Whether the fields can be those of an institution.
pub open spec fn institution_shape_ok(f: Seq<FieldValue>) -> bool {
    f.len() == 5 && f[0].is_text() && f[2].is_text() && f[3].is_text()
}

/// The institution that the fields describe.
pub open spec fn institution_of_fields(f: Seq<FieldValue>) -> InstitutionView {
    InstitutionView {
        institution_id: f[0].text(),
        owner: f[1].blob(),
        name: f[2].text(),
        email: f[3].text(),
        created_at: f[4].number(),
    }
}

/// The bytes of an institution.
pub open spec fn encode_institution_spec(v: InstitutionView) -> Seq<u8> {
    fields_bytes(institution_fields(v))
}

/// The institution that `bytes` encode, if they encode one.
pub open spec fn parse_institution(bytes: Seq<u8>) -> Option<InstitutionView> {
    match decode_fields_spec(bytes, institution_schema()) {
        Some(f) => if institution_shape_ok(f) {
            Some(institution_of_fields(f))
        } else {
            None
        },
        None => None,
    }
}

/// The institution that `bytes` decode to: the one they encode, or the empty
/// institution.
pub open spec fn decode_institution_spec(bytes: Seq<u8>) -> InstitutionView {
    match parse_institution(bytes) {
        Some(v) => v,
        None => institution_sentinel(),
    }
}

/// Encodes an institution.
pub fn encode_institution(institution: &Institution) -> (bytes: Vec<u8>)
    ensures
        bytes@ == encode_institution_spec(institution@),
        all_fit(institution_fields(institution@)),
{
    let mut fields: Vec<Field> = Vec::new();
    fields.push(text_field_of(&institution.institution_id));
    fields.push(blob_field_of(&institution.owner));
    fields.push(text_field_of(&institution.name));
    fields.push(text_field_of(&institution.email));
    fields.push(Field::Int(institution.created_at));
    assert(fields_view(fields@) =~= institution_fields(institution@));
    encode_fields(&fields)
}

/// Reads an institution, if the bytes encode one.
pub fn try_decode_institution(bytes: &[u8]) -> (institution: Option<Institution>)
    ensures
        institution.is_some() == parse_institution(bytes@).is_some(),
        institution.is_some() ==> institution.unwrap()@ == parse_institution(bytes@).unwrap(),
{
    let schema = [FieldKind::Blob, FieldKind::Blob, FieldKind::Blob, FieldKind::Blob, FieldKind::Int];
    assert(schema@ =~= institution_schema());
    let fields = match decode_fields(bytes, schema.as_slice()) {
        Some(fields) => fields,
        None => { return None; },
    };
    if fields.len() != 5 {
        return None;
    }
    let institution_id = match text_at(&fields, 0) {
        Some(t) => t,
        None => { return None; },
    };
    let name = match text_at(&fields, 2) {
        Some(t) => t,
        None => { return None; },
    };
    let email = match text_at(&fields, 3) {
        Some(t) => t,
        None => { return None; },
    };
    Some(
        Institution {
            institution_id,
            owner: blob_at(&fields, 1),
            name,
            email,
            created_at: int_at(&fields, 4),
        },
    )
}

/// Decodes an institution; bytes that encode none give the empty institution.
pub fn decode_institution(bytes: &[u8]) -> (institution: Institution)
    ensures
        institution@ == decode_institution_spec(bytes@),
{
    match try_decode_institution(bytes) {
        Some(institution) => institution,
        None => Institution::default(),
    }
}

/// Round trip: an encoded institution decodes to itself.
pub proof fn law_institution_round_trip(v: InstitutionView)
    requires
        all_fit(institution_fields(v)),
    ensures
        parse_institution(encode_institution_spec(v)) == Some(v),
        decode_institution_spec(encode_institution_spec(v)) == v,
{
    let f = institution_fields(v);
    law_fields_round_trip(f);
    lemma_text_field(v.institution_id);
    lemma_text_field(v.name);
    lemma_text_field(v.email);
    assert(kinds_of(f) =~= institution_schema());
}

// --------------------------------------------------------------- user profiles

/// The number that stands for a role.
pub open spec fn role_tag(role: UserRoleView) -> u64 {
    match role {
        UserRoleView::SuperAdmin => 0,
        UserRoleView::RegularUser => 1,
        UserRoleView::InstitutionMember(_) => 2,
    }
}

/// The institution a role names; empty for the roles that name none.
pub open spec fn role_institution(role: UserRoleView) -> Seq<char> {
    match role {
        UserRoleView::InstitutionMember(id) => id,
        _ => Seq::empty(),
    }
}

/// The role that a tag and an institution id stand for.
pub open spec fn role_of(tag: u64, institution: Seq<char>) -> UserRoleView {
    if tag == 0 {
        UserRoleView::SuperAdmin
    } else if tag == 1 {
        UserRoleView::RegularUser
    } else {
        UserRoleView::InstitutionMember(institution)
    }
}

/// The fields of a user profile, in order.
pub open spec fn user_profile_fields(v: UserProfileView) -> Seq<FieldValue> {
    seq![
        FieldValue::Blob(v.internet_identity),
        text_field(v.name),
        text_field(v.email),
        FieldValue::Int(role_tag(v.role)),
        text_field(role_institution(v.role)),
        text_field(v.assigned_institution_id),
        FieldValue::Int(v.created_at),
        FieldValue::Int(v.last_login),
    ]
}

/// The kinds of the fields of a user profile.
pub open spec fn user_profile_schema() -> Seq<FieldKind> {
    seq![
        FieldKind::Blob,
        FieldKind::Blob,
        FieldKind::Blob,
        FieldKind::Int,
        FieldKind::Blob,
        FieldKind::Blob,
        FieldKind::Int,
        FieldKind::Int,
    ]
}

/// Whether the fields can be those of a user profile.
pub open spec fn user_profile_shape_ok(f: Seq<FieldValue>) -> bool {
    &&& f.len() == 8
    &&& f[1].is_text()
    &&& f[2].is_text()
    &&& f[4].is_text()
    &&& f[5].is_text()
    &&& f[3].number() <= 2
    &&& (f[3].number() != 2 ==> f[4].blob().len() == 0)
}

/// The user profile that the fields describe.
pub open spec fn user_profile_of_fields(f: Seq<FieldValue>) -> UserProfileView {
    UserProfileView {
        internet_identity: f[0].blob(),
        name: f[1].text(),
        email: f[2].text(),
        role: role_of(f[3].number(), f[4].text()),
        assigned_institution_id: f[5].text(),
        created_at: f[6].number(),
        last_login: f[7].number(),
    }
}

/// The bytes of a user profile.
pub open spec fn encode_user_profile_spec(v: UserProfileView) -> Seq<u8> {
    fields_bytes(user_profile_fields(v))
}

/// The user profile that `bytes` encode, if they encode one.
pub open spec fn parse_user_profile(bytes: Seq<u8>) -> Option<UserProfileView> {
    match decode_fields_spec(bytes, user_profile_schema()) {
        Some(f) => if user_profile_shape_ok(f) {
            Some(user_profile_of_fields(f))
        } else {
            None
        },
        None => None,
    }
}

/// The user profile that `bytes` decode to: the one they encode, or the empty
/// profile.
pub open spec fn decode_user_profile_spec(bytes: Seq<u8>) -> UserProfileView {
    match parse_user_profile(bytes) {
        Some(v) => v,
        None => user_profile_sentinel(),
    }
}

/// No text has no bytes.
pub proof fn lemma_empty_text()
    ensures
        encode_utf8(Seq::<char>::empty()) == Seq::<u8>::empty(),
        decode_utf8(Seq::<u8>::empty()) == Seq::<char>::empty(),
{
    encode_utf8_decode_utf8(Seq::<char>::empty());
    assert(encode_utf8(Seq::<char>::empty()) =~= Seq::<u8>::empty());
}

/// Encodes a user profile.
pub fn encode_user_profile(profile: &UserProfile) -> (bytes: Vec<u8>)
    ensures
        bytes@ == encode_user_profile_spec(profile@),
        all_fit(user_profile_fields(profile@)),
{
    let mut fields: Vec<Field> = Vec::new();
    fields.push(blob_field_of(&profile.internet_identity));
    fields.push(text_field_of(&profile.name));
    fields.push(text_field_of(&profile.email));
    match &profile.role {
        UserRole::SuperAdmin => {
            fields.push(Field::Int(0));
            fields.push(Field::Blob(text_bytes("")));
        },
        UserRole::RegularUser => {
            fields.push(Field::Int(1));
            fields.push(Field::Blob(text_bytes("")));
        },
        UserRole::InstitutionMember(id) => {
            fields.push(Field::Int(2));
            fields.push(text_field_of(id));
        },
    }
    fields.push(text_field_of(&profile.assigned_institution_id));
    fields.push(Field::Int(profile.created_at));
    fields.push(Field::Int(profile.last_login));
    proof {
        reveal_strlit("");
        assert(""@ =~= Seq::<char>::empty());
        assert(fields_view(fields@) =~= user_profile_fields(profile@));
    }
    encode_fields(&fields)
}

/// Reads a user profile, if the bytes encode one.
pub fn try_decode_user_profile(bytes: &[u8]) -> (profile: Option<UserProfile>)
    ensures
        profile.is_some() == parse_user_profile(bytes@).is_some(),
        profile.is_some() ==> profile.unwrap()@ == parse_user_profile(bytes@).unwrap(),
{
    let schema = [
        FieldKind::Blob,
        FieldKind::Blob,
        FieldKind::Blob,
        FieldKind::Int,
        FieldKind::Blob,
        FieldKind::Blob,
        FieldKind::Int,
        FieldKind::Int,
    ];
    assert(schema@ =~= user_profile_schema());
    let fields = match decode_fields(bytes, schema.as_slice()) {
        Some(fields) => fields,
        None => { return None; },
    };
    if fields.len() != 8 {
        return None;
    }
    let name = match text_at(&fields, 1) {
        Some(t) => t,
        None => { return None; },
    };
    let email = match text_at(&fields, 2) {
        Some(t) => t,
        None => { return None; },
    };
    let institution = match text_at(&fields, 4) {
        Some(t) => t,
        None => { return None; },
    };
    let assigned_institution_id = match text_at(&fields, 5) {
        Some(t) => t,
        None => { return None; },
    };
    let tag = int_at(&fields, 3);
    if tag > 2 {
        return None;
    }
    if tag != 2 && blob_at(&fields, 4).len() != 0 {
        return None;
    }
    let role = if tag == 0 {
        UserRole::SuperAdmin
    } else if tag == 1 {
        UserRole::RegularUser
    } else {
        UserRole::InstitutionMember(institution)
    };
    Some(
        UserProfile {
            internet_identity: blob_at(&fields, 0),
            name,
            email,
            role,
            assigned_institution_id,
            created_at: int_at(&fields, 6),
            last_login: int_at(&fields, 7),
        },
    )
}

/// Decodes a user profile; bytes that encode none give the empty profile.
pub fn decode_user_profile(bytes: &[u8]) -> (profile: UserProfile)
    ensures
        profile@ == decode_user_profile_spec(bytes@),
{
    match try_decode_user_profile(bytes) {
        Some(profile) => profile,
        None => UserProfile::default(),
    }
}

/// Round trip: an encoded user profile decodes to itself.
pub proof fn law_user_profile_round_trip(v: UserProfileView)
    requires
        all_fit(user_profile_fields(v)),
    ensures
        parse_user_profile(encode_user_profile_spec(v)) == Some(v),
        decode_user_profile_spec(encode_user_profile_spec(v)) == v,
{
    let f = user_profile_fields(v);
    law_fields_round_trip(f);
    lemma_text_field(v.name);
    lemma_text_field(v.email);
    lemma_text_field(role_institution(v.role));
    lemma_text_field(v.assigned_institution_id);
    lemma_empty_text();
    assert(kinds_of(f) =~= user_profile_schema());
}

// ------------------------------------------------------------------- documents

/// The fields of a document, in order.
pub open spec fn document_fields(v: DocumentView) -> Seq<FieldValue> {
    let data = v.document_data->EarningRelease_0;
    seq![
        text_field(v.institution_id),
        text_field(v.document_id),
        FieldValue::Blob(v.owner),
        text_field(v.name),
        text_field(v.company_name),
        text_field(v.description),
        FieldValue::Int(0),
        text_field(data.earning_release_id),
        FieldValue::Int(data.quarter as u64),
        FieldValue::Int(data.year as u64),
        FieldValue::Int(data.consolidated_income_data.gross_profit),
        FieldValue::Int(data.consolidated_income_data.operating_profit),
        FieldValue::Int(data.consolidated_income_data.ebitda),
        FieldValue::Int(data.consolidated_income_data.profit_before_tax),
        FieldValue::Int(data.consolidated_income_data.net_profit),
        FieldValue::Int(data.consolidated_balance_sheet_data.total_assets),
        FieldValue::Int(data.consolidated_balance_sheet_data.total_equity),
        FieldValue::Int(data.consolidated_balance_sheet_data.total_liabilities),
        FieldValue::Int(data.consolidated_balance_sheet_data.total_liabilities_and_equity),
        FieldValue::Int(0),
        text_field(v.file_hash),
        FieldValue::Int(v.file_size),
        text_field(v.file_type),
        FieldValue::Blob(v.file_data),
        FieldValue::Int(v.publication_date),
    ]
}

/// The kinds of the fields of a document.
pub open spec fn document_schema() -> Seq<FieldKind> {
    seq![
        FieldKind::Blob,
        FieldKind::Blob,
        FieldKind::Blob,
        FieldKind::Blob,
        FieldKind::Blob,
        FieldKind::Blob,
        FieldKind::Int,
        FieldKind::Blob,
        FieldKind::Int,
        FieldKind::Int,
        FieldKind::Int,
        FieldKind::Int,
        FieldKind::Int,
        FieldKind::Int,
        FieldKind::Int,
        FieldKind::Int,
        FieldKind::Int,
        FieldKind::Int,
        FieldKind::Int,
        FieldKind::Int,
        FieldKind::Blob,
        FieldKind::Int,
        FieldKind::Blob,
        FieldKind::Blob,
        FieldKind::Int,
    ]
}

/// Whether the fields can be those of a document.
pub open spec fn document_shape_ok(f: Seq<FieldValue>) -> bool {
    &&& f.len() == 25
    &&& f[0].is_text()
    &&& f[1].is_text()
    &&& f[3].is_text()
    &&& f[4].is_text()
    &&& f[5].is_text()
    &&& f[7].is_text()
    &&& f[20].is_text()
    &&& f[22].is_text()
    &&& f[6].number() == 0
    &&& f[8].number() <= u8::MAX
    &&& f[9].number() <= u16::MAX
    &&& f[19].number() == 0
}

/// The document that the fields describe.
pub open spec fn document_of_fields(f: Seq<FieldValue>) -> DocumentView {
    DocumentView {
        institution_id: f[0].text(),
        document_id: f[1].text(),
        owner: f[2].blob(),
        name: f[3].text(),
        company_name: f[4].text(),
        description: f[5].text(),
        document_data: DocumentTypeView::EarningRelease(
            EarningReleaseDataView {
                earning_release_id: f[7].text(),
                quarter: f[8].number() as u8,
                year: f[9].number() as u16,
                consolidated_income_data: ConsolidatedIncomeData {
                    gross_profit: f[10].number(),
                    operating_profit: f[11].number(),
                    ebitda: f[12].number(),
                    profit_before_tax: f[13].number(),
                    net_profit: f[14].number(),
                },
                consolidated_balance_sheet_data: ConsolidatedBalanceSheetData {
                    total_assets: f[15].number(),
                    total_equity: f[16].number(),
                    total_liabilities: f[17].number(),
                    total_liabilities_and_equity: f[18].number(),
                },
            },
        ),
        document_category: CollectionCategory::EarningRelease,
        file_hash: f[20].text(),
        file_size: f[21].number(),
        file_type: f[22].text(),
        file_data: f[23].blob(),
        publication_date: f[24].number(),
    }
}

/// The bytes of a document.
pub open spec fn encode_document_spec(v: DocumentView) -> Seq<u8> {
    fields_bytes(document_fields(v))
}

/// The document that `bytes` encode, if they encode one.
pub open spec fn parse_document(bytes: Seq<u8>) -> Option<DocumentView> {
    match decode_fields_spec(bytes, document_schema()) {
        Some(f) => if document_shape_ok(f) {
            Some(document_of_fields(f))
        } else {
            None
        },
        None => None,
    }
}

/// The document that `bytes` decode to: the one they encode, or the empty
/// document.
pub open spec fn decode_document_spec(bytes: Seq<u8>) -> DocumentView {
    match parse_document(bytes) {
        Some(v) => v,
        None => document_sentinel(),
    }
}

/// Encodes a document.
pub fn encode_document(document: &Document) -> (bytes: Vec<u8>)
    ensures
        bytes@ == encode_document_spec(document@),
        all_fit(document_fields(document@)),
{
    let mut fields: Vec<Field> = Vec::new();
    fields.push(text_field_of(&document.institution_id));
    fields.push(text_field_of(&document.document_id));
    fields.push(blob_field_of(&document.owner));
    fields.push(text_field_of(&document.name));
    fields.push(text_field_of(&document.company_name));
    fields.push(text_field_of(&document.description));
    fields.push(Field::Int(0));
    match &document.document_data {
        DocumentType::EarningRelease(data) => {
            fields.push(text_field_of(&data.earning_release_id));
            fields.push(Field::Int(data.quarter as u64));
            fields.push(Field::Int(data.year as u64));
            fields.push(Field::Int(data.consolidated_income_data.gross_profit));
            fields.push(Field::Int(data.consolidated_income_data.operating_profit));
            fields.push(Field::Int(data.consolidated_income_data.ebitda));
            fields.push(Field::Int(data.consolidated_income_data.profit_before_tax));
            fields.push(Field::Int(data.consolidated_income_data.net_profit));
            fields.push(Field::Int(data.consolidated_balance_sheet_data.total_assets));
            fields.push(Field::Int(data.consolidated_balance_sheet_data.total_equity));
            fields.push(Field::Int(data.consolidated_balance_sheet_data.total_liabilities));
            fields.push(
                Field::Int(data.consolidated_balance_sheet_data.total_liabilities_and_equity),
            );
        },
    }
    fields.push(Field::Int(0));
    fields.push(text_field_of(&document.file_hash));
    fields.push(Field::Int(document.file_size));
    fields.push(text_field_of(&document.file_type));
    fields.push(blob_field_of(&document.file_data));
    fields.push(Field::Int(document.publication_date));
    assert(fields_view(fields@) =~= document_fields(document@));
    encode_fields(&fields)
}

/// Reads a document, if the bytes encode one.
pub fn try_decode_document(bytes: &[u8]) -> (document: Option<Document>)
    ensures
        document.is_some() == parse_document(bytes@).is_some(),
        document.is_some() ==> document.unwrap()@ == parse_document(bytes@).unwrap(),
{
    let schema = [
        FieldKind::Blob,
        FieldKind::Blob,
        FieldKind::Blob,
        FieldKind::Blob,
        FieldKind::Blob,
        FieldKind::Blob,
        FieldKind::Int,
        FieldKind::Blob,
        FieldKind::Int,
        FieldKind::Int,
        FieldKind::Int,
        FieldKind::Int,
        FieldKind::Int,
        FieldKind::Int,
        FieldKind::Int,
        FieldKind::Int,
        FieldKind::Int,
        FieldKind::Int,
        FieldKind::Int,
        FieldKind::Int,
        FieldKind::Blob,
        FieldKind::Int,
        FieldKind::Blob,
        FieldKind::Blob,
        FieldKind::Int,
    ];
    assert(schema@ =~= document_schema());
    let fields = match decode_fields(bytes, schema.as_slice()) {
        Some(fields) => fields,
        None => { return None; },
    };
    if fields.len() != 25 {
        return None;
    }
    let institution_id = match text_at(&fields, 0) {
        Some(t) => t,
        None => { return None; },
    };
    let document_id = match text_at(&fields, 1) {
        Some(t) => t,
        None => { return None; },
    };
    let name = match text_at(&fields, 3) {
        Some(t) => t,
        None => { return None; },
    };
    let company_name = match text_at(&fields, 4) {
        Some(t) => t,
        None => { return None; },
    };
    let description = match text_at(&fields, 5) {
        Some(t) => t,
        None => { return None; },
    };
    let earning_release_id = match text_at(&fields, 7) {
        Some(t) => t,
        None => { return None; },
    };
    let file_hash = match text_at(&fields, 20) {
        Some(t) => t,
        None => { return None; },
    };
    let file_type = match text_at(&fields, 22) {
        Some(t) => t,
        None => { return None; },
    };
    let quarter = int_at(&fields, 8);
    let year = int_at(&fields, 9);
    if int_at(&fields, 6) != 0 || quarter > 255 || year > 65535 || int_at(&fields, 19) != 0 {
        return None;
    }
    let data = EarningReleaseData {
        earning_release_id,
        quarter: quarter as u8,
        year: year as u16,
        consolidated_income_data: ConsolidatedIncomeData {
            gross_profit: int_at(&fields, 10),
            operating_profit: int_at(&fields, 11),
            ebitda: int_at(&fields, 12),
            profit_before_tax: int_at(&fields, 13),
            net_profit: int_at(&fields, 14),
        },
        consolidated_balance_sheet_data: ConsolidatedBalanceSheetData {
            total_assets: int_at(&fields, 15),
            total_equity: int_at(&fields, 16),
            total_liabilities: int_at(&fields, 17),
            total_liabilities_and_equity: int_at(&fields, 18),
        },
    };
    Some(
        Document {
            institution_id,
            document_id,
            owner: blob_at(&fields, 2),
            name,
            company_name,
            description,
            document_data: DocumentType::EarningRelease(data),
            document_category: CollectionCategory::EarningRelease,
            file_hash,
            file_size: int_at(&fields, 21),
            file_type,
            file_data: blob_at(&fields, 23),
            publication_date: int_at(&fields, 24),
        },
    )
}

/// Decodes a document; bytes that encode none give the empty document.
pub fn decode_document(bytes: &[u8]) -> (document: Document)
    ensures
        document@ == decode_document_spec(bytes@),
{
    match try_decode_document(bytes) {
        Some(document) => document,
        None => Document::default(),
    }
}

/// Round trip: an encoded document decodes to itself.
pub proof fn law_document_round_trip(v: DocumentView)
    requires
        all_fit(document_fields(v)),
    ensures
        parse_document(encode_document_spec(v)) == Some(v),
        decode_document_spec(encode_document_spec(v)) == v,
{
    let f = document_fields(v);
    let data = v.document_data->EarningRelease_0;
    law_fields_round_trip(f);
    lemma_text_field(v.institution_id);
    lemma_text_field(v.document_id);
    lemma_text_field(v.name);
    lemma_text_field(v.company_name);
    lemma_text_field(v.description);
    lemma_text_field(data.earning_release_id);
    lemma_text_field(v.file_hash);
    lemma_text_field(v.file_type);
    assert(kinds_of(f) =~= document_schema());
    assert(document_shape_ok(f));
    assert(document_of_fields(f).document_data == v.document_data);
    assert(document_of_fields(f) == v);
}

// ---------------------------------------------------------------- decode faults

/// How many bytes of a corrupted value are shown in its log event.
pub const PREVIEW_BYTES: usize = 100;

/// The first bytes of `bytes` that a log event shows.
pub open spec fn preview_of(bytes: Seq<u8>) -> Seq<u8> {
    if bytes.len() <= PREVIEW_BYTES {
        bytes
    } else {
        bytes.subrange(0, PREVIEW_BYTES as int)
    }
}

/// The message of the event that a value of type `kind_name` did not decode.
pub open spec fn fault_message(kind_name: Seq<char>) -> Seq<char> {
    "Failed to deserialize "@ + kind_name
}

/// The message of the event that shows the first bytes of a corrupted value.
pub open spec fn preview_message(kind_name: Seq<char>, bytes: Seq<u8>) -> Seq<char> {
    "Corrupted "@ + kind_name + " data (first 100 bytes): "@ + hex_text(preview_of(bytes))
}

/// The two events of a decode fault: that a value of type `kind_name` did not
/// decode, which is critical, and the first bytes of the value in
/// hexadecimal, for diagnosis.
pub fn log_deserialization_error(kind_name: &str, bytes: &[u8]) -> (events: (LogEntry, LogEntry))
    ensures
        events.0.is(
            LogSeverity::Critical,
            "DESERIALIZATION_ERROR"@,
            "storage"@,
            fault_message(kind_name@),
            None,
        ),
        events.1.is(
            LogSeverity::Debug,
            "CORRUPTED_DATA"@,
            "storage"@,
            preview_message(kind_name@, bytes@),
            None,
        ),
{
    let logger = get_logger("storage");
    let mut message = String::from_str("Failed to deserialize ");
    message.append(kind_name);
    let fault = logger.log(LogSeverity::Critical, "DESERIALIZATION_ERROR", message.as_str(), None);
    let shown = if bytes.len() <= PREVIEW_BYTES {
        bytes
    } else {
        slice_subrange(bytes, 0, PREVIEW_BYTES)
    };
    let mut preview = String::from_str("Corrupted ");
    preview.append(kind_name);
    preview.append(" data (first 100 bytes): ");
    push_hex(&mut preview, shown);
    let corrupted = logger.log(LogSeverity::Debug, "CORRUPTED_DATA", preview.as_str(), None);
    (fault, corrupted)
}

/// Decodes a document and reports a decode fault: the document that the bytes
/// encode and no events, or the empty document and the two events of the
/// fault.
pub fn decode_document_reporting(bytes: &[u8]) -> (decoded: (Document, Vec<LogEntry>))
    ensures
        decoded.0@ == decode_document_spec(bytes@),
        decoded.1@.len() == (if parse_document(bytes@).is_some() {
            0nat
        } else {
            2nat
        }),
        parse_document(bytes@).is_none() ==> decoded.1@[0].is(
            LogSeverity::Critical,
            "DESERIALIZATION_ERROR"@,
            "storage"@,
            fault_message("Document"@),
            None,
        ) && decoded.1@[1].is(
            LogSeverity::Debug,
            "CORRUPTED_DATA"@,
            "storage"@,
            preview_message("Document"@, bytes@),
            None,
        ),
{
    let mut events: Vec<LogEntry> = Vec::new();
    match try_decode_document(bytes) {
        Some(document) => (document, events),
        None => {
            let (fault, corrupted) = log_deserialization_error("Document", bytes);
            events.push(fault);
            events.push(corrupted);
            (Document::default(), events)
        },
    }
}

/// Decodes an institution and reports a decode fault: the institution that
/// the bytes encode and no events, or the empty institution and the two
/// events of the fault.
pub fn decode_institution_reporting(bytes: &[u8]) -> (decoded: (Institution, Vec<LogEntry>))
    ensures
        decoded.0@ == decode_institution_spec(bytes@),
        decoded.1@.len() == (if parse_institution(bytes@).is_some() {
            0nat
        } else {
            2nat
        }),
        parse_institution(bytes@).is_none() ==> decoded.1@[0].is(
            LogSeverity::Critical,
            "DESERIALIZATION_ERROR"@,
            "storage"@,
            fault_message("Institution"@),
            None,
        ) && decoded.1@[1].is(
            LogSeverity::Debug,
            "CORRUPTED_DATA"@,
            "storage"@,
            preview_message("Institution"@, bytes@),
            None,
        ),
{
    let mut events: Vec<LogEntry> = Vec::new();
    match try_decode_institution(bytes) {
        Some(institution) => (institution, events),
        None => {
            let (fault, corrupted) = log_deserialization_error("Institution", bytes);
            events.push(fault);
            events.push(corrupted);
            (Institution::default(), events)
        },
    }
}

/// Decodes a user profile and reports a decode fault: the profile that the
/// bytes encode and no events, or the empty profile and the two events of
/// the fault.
pub fn decode_user_profile_reporting(bytes: &[u8]) -> (decoded: (UserProfile, Vec<LogEntry>))
    ensures
        decoded.0@ == decode_user_profile_spec(bytes@),
        decoded.1@.len() == (if parse_user_profile(bytes@).is_some() {
            0nat
        } else {
            2nat
        }),
        parse_user_profile(bytes@).is_none() ==> decoded.1@[0].is(
            LogSeverity::Critical,
            "DESERIALIZATION_ERROR"@,
            "storage"@,
            fault_message("UserProfile"@),
            None,
        ) && decoded.1@[1].is(
            LogSeverity::Debug,
            "CORRUPTED_DATA"@,
            "storage"@,
            preview_message("UserProfile"@, bytes@),
            None,
        ),
{
    let mut events: Vec<LogEntry> = Vec::new();
    match try_decode_user_profile(bytes) {
        Some(profile) => (profile, events),
        None => {
            let (fault, corrupted) = log_deserialization_error("UserProfile", bytes);
            events.push(fault);
            events.push(corrupted);
            (UserProfile::default(), events)
        },
    }
}

} // verus!
