//! Safe access to the record collections: reads that never fail on corrupted
//! bytes, and writes that are checked before anything is stored.

use crate::codec::{
    decode_document, decode_document_spec, decode_institution, decode_institution_spec,
    decode_user_profile, decode_user_profile_spec, document_fields, encode_document,
    encode_document_spec, encode_institution, encode_institution_spec, encode_user_profile,
    encode_user_profile_spec, institution_fields, law_document_round_trip,
    law_institution_round_trip, law_user_profile_round_trip, user_profile_fields,
};
use crate::fields::all_fit;
use crate::records::{
    Document, DocumentView, Institution, InstitutionView, UserProfile, UserProfileView,
};
use crate::store::{collection_ok, Collection, Store};
use crate::text::{text_bytes, text_from_bytes};
use crate::token_list::{
    decode_token_list, decode_token_list_spec, encode_token_list, encode_token_list_spec,
    law_token_list_round_trip, texts_view,
};
use crate::typed_map::{bytes_lt, is_listing_of, pairs_view, MAX_ENTRY_BYTES};
use vstd::prelude::*;
use vstd::slice::*;
use vstd::utf8::*;

verus! {

/// Why a write was refused.
#[derive(Clone, Copy, Debug, PartialEq, Eq, Structural)]
pub enum StoreError {
    /// The key is empty.
    EmptyKey,
    /// The record's own id is not the key it is stored under.
    KeyMismatch,
    /// The key or the encoded record is longer than an entry can be.
    RecordTooLarge,
    /// A record is stored under the key already.
    AlreadyExists,
}

impl StoreError {
    /// The error in words.
    pub open spec fn message_text(self) -> Seq<char> {
        match self {
            StoreError::EmptyKey => "ID cannot be empty"@,
            StoreError::KeyMismatch => "ID mismatch"@,
            StoreError::RecordTooLarge => "Record too large"@,
            StoreError::AlreadyExists => "ID already exists"@,
        }
    }

    /// The error in words.
    pub fn message(&self) -> (text: &'static str)
        ensures
            text@ == self.message_text(),
    {
        match self {
            StoreError::EmptyKey => "ID cannot be empty",
            StoreError::KeyMismatch => "ID mismatch",
            StoreError::RecordTooLarge => "Record too large",
            StoreError::AlreadyExists => "ID already exists",
        }
    }
}

/// What a checked write of `value` under `key` comes to, for a record whose
/// own id is `id`.
pub open spec fn write_outcome(key: Seq<u8>, id: Seq<u8>, value: Seq<u8>, reject_empty: bool)
    -> Result<(), StoreError> {
    if reject_empty && key.len() == 0 {
        Err(StoreError::EmptyKey)
    } else if id != key {
        Err(StoreError::KeyMismatch)
    } else if key.len() > MAX_ENTRY_BYTES || value.len() > MAX_ENTRY_BYTES {
        Err(StoreError::RecordTooLarge)
    } else {
        Ok(())
    }
}

/// Whether two byte strings are the same.
pub fn same_bytes(a: &[u8], b: &[u8]) -> (same: bool)
    ensures
        same == (a@ == b@),
{
    if a.len() != b.len() {
        return false;
    }
    let mut i: usize = 0;
    while i < a.len()
        invariant
            i <= a@.len(),
            a@.len() == b@.len(),
            forall|j: int| 0 <= j < i ==> a@[j] == b@[j],
        decreases a@.len() - i,
    {
        if a[i] != b[i] {
            return false;
        }
        i += 1;
    }
    assert(a@ =~= b@);
    true
}

/// Checks a write and, if nothing speaks against it, stores the bytes.
fn checked_put(
    store: &mut Store,
    c: Collection,
    key: Vec<u8>,
    id: &Vec<u8>,
    value: Vec<u8>,
    reject_empty: bool,
) -> (outcome: Result<(), StoreError>)
    requires
        old(store).wf(),
        c.text_keyed() ==> valid_utf8(key@),
    ensures
        final(store).wf(),
        outcome == write_outcome(key@, id@, value@, reject_empty),
        outcome.is_ok() ==> final(store).contents(c) == old(store).contents(c).insert(
            key@,
            value@,
        ),
        outcome.is_err() ==> final(store).contents(c) == old(store).contents(c),
        forall|d: Collection|
            d != c ==> #[trigger] final(store).contents(d) == old(store).contents(d),
{
    if reject_empty && key.len() == 0 {
        return Err(StoreError::EmptyKey);
    }
    if !same_bytes(id.as_slice(), key.as_slice()) {
        return Err(StoreError::KeyMismatch);
    }
    if key.len() > MAX_ENTRY_BYTES || value.len() > MAX_ENTRY_BYTES {
        return Err(StoreError::RecordTooLarge);
    }
    store.put_raw(c, key, value);
    Ok(())
}

/// Two texts are the same exactly when their bytes are.
pub proof fn lemma_text_bytes_injective(a: Seq<char>, b: Seq<char>)
    ensures
        (encode_utf8(a) == encode_utf8(b)) == (a == b),
{
    encode_utf8_decode_utf8(a);
    encode_utf8_decode_utf8(b);
}

/// The keys of a text-keyed collection, as text, in ascending order of their
/// bytes.
pub open spec fn lists_keys(ids: Seq<String>, contents: Map<Seq<u8>, Seq<u8>>) -> bool {
    &&& ids.len() == contents.dom().len()
    &&& forall|i: int, j: int|
        0 <= i < j < ids.len() ==> bytes_lt(
            encode_utf8(#[trigger] ids[i]@),
            encode_utf8(#[trigger] ids[j]@),
        )
    &&& forall|i: int| 0 <= i < ids.len() ==> contents.contains_key(encode_utf8(#[trigger] ids[i]@))
    &&& forall|k: Seq<u8>| #[trigger]
        contents.contains_key(k) ==> exists|i: int|
            0 <= i < ids.len() && encode_utf8(#[trigger] ids[i]@) == k
}

/// The keys of a text-keyed collection, in ascending order.
pub fn list_ids(store: &Store, c: Collection) -> (ids: Vec<String>)
    requires
        store.wf(),
        c.text_keyed(),
    ensures
        lists_keys(ids@, store.contents(c)),
{
    let entries = store.entries(c);
    let ghost listing = pairs_view(entries@);
    let mut ids: Vec<String> = Vec::new();
    let mut i: usize = 0;
    proof {
        assert(collection_ok(store.contents(c), c));
    }
    while i < entries.len()
        invariant
            i <= entries@.len(),
            ids@.len() == i,
            listing == pairs_view(entries@),
            is_listing_of(listing, store.contents(c)),
            crate::store::text_keys(store.contents(c)),
            forall|j: int| 0 <= j < i ==> encode_utf8(#[trigger] ids@[j]@) == listing[j].0,
        decreases entries@.len() - i,
    {
        let key = slice_to_vec(entries[i].0.as_slice());
        proof {
            assert(listing[i as int].0 == entries@[i as int].0@);
            assert(store.contents(c).contains_key(listing[i as int].0));
            decode_utf8_encode_utf8(key@);
        }
        let id = match text_from_bytes(key) {
            Some(id) => id,
            None => String::new(),
        };
        ids.push(id);
        i += 1;
    }
    proof {
        assert forall|k: Seq<u8>| #[trigger] store.contents(c).contains_key(k) implies exists|
            i: int,
        |
            0 <= i < ids@.len() && encode_utf8(#[trigger] ids@[i]@) == k by {
            let i = choose|i: int| 0 <= i < listing.len() && #[trigger] listing[i].0 == k;
            assert(encode_utf8(ids@[i]@) == k);
        }
        assert forall|i: int, j: int| 0 <= i < j < ids@.len() implies bytes_lt(
            encode_utf8(#[trigger] ids@[i]@),
            encode_utf8(#[trigger] ids@[j]@),
        ) by {
            assert(bytes_lt(listing[i].0, listing[j].0));
        }
        assert forall|i: int| 0 <= i < ids@.len() implies store.contents(c).contains_key(
            encode_utf8(#[trigger] ids@[i]@),
        ) by {
            assert(store.contents(c).contains_key(listing[i].0));
        }
    }
    ids
}

// ------------------------------------------------------------------- documents

/// The document stored under `document_id`, if any. Corrupted bytes read as
/// the empty document.
pub fn get_document_safe(store: &Store, document_id: &str) -> (found: Option<Document>)
    ensures
        found.is_some() == store.contents(Collection::Documents).contains_key(
            encode_utf8(document_id@),
        ),
        found.is_some() ==> found.unwrap()@ == decode_document_spec(
            store.contents(Collection::Documents)[encode_utf8(document_id@)],
        ),
{
    let key = text_bytes(document_id);
    match store.get_raw(Collection::Documents, &key) {
        Some(bytes) => Some(decode_document(bytes.as_slice())),
        None => None,
    }
}

/// Stores `document` under `document_id`. The write is refused, and nothing
/// changes, when the key is empty, when the document's own id is not the key,
/// or when key or record exceed the entry limit. A document that was stored
/// reads back as itself.
pub fn store_document_safe(store: &mut Store, document_id: &str, document: &Document) -> (outcome:
    Result<(), StoreError>)
    requires
        old(store).wf(),
    ensures
        final(store).wf(),
        outcome == write_outcome(
            encode_utf8(document_id@),
            encode_utf8(document@.document_id),
            encode_document_spec(document@),
            true,
        ),
        outcome.is_ok() ==> final(store).contents(Collection::Documents) == old(store).contents(
            Collection::Documents,
        ).insert(encode_utf8(document_id@), encode_document_spec(document@)),
        outcome.is_ok() ==> decode_document_spec(
            final(store).contents(Collection::Documents)[encode_utf8(document_id@)],
        ) == document@,
        outcome.is_err() ==> final(store).contents(Collection::Documents) == old(store).contents(
            Collection::Documents,
        ),
        forall|d: Collection|
            d != Collection::Documents ==> #[trigger] final(store).contents(d) == old(
                store,
            ).contents(d),
{
    let key = text_bytes(document_id);
    let id = text_bytes(document.document_id.as_str());
    let value = encode_document(document);
    proof {
        law_document_round_trip(document@);
    }
    checked_put(store, Collection::Documents, key, &id, value, true)
}

/// Removes the document stored under `document_id` and returns it.
pub fn remove_document(store: &mut Store, document_id: &str) -> (removed: Option<Document>)
    requires
        old(store).wf(),
    ensures
        final(store).wf(),
        final(store).contents(Collection::Documents) == old(store).contents(
            Collection::Documents,
        ).remove(encode_utf8(document_id@)),
        forall|d: Collection|
            d != Collection::Documents ==> #[trigger] final(store).contents(d) == old(
                store,
            ).contents(d),
        removed.is_some() == old(store).contents(Collection::Documents).contains_key(
            encode_utf8(document_id@),
        ),
        removed.is_some() ==> removed.unwrap()@ == decode_document_spec(
            old(store).contents(Collection::Documents)[encode_utf8(document_id@)],
        ),
{
    let key = text_bytes(document_id);
    match store.remove_raw(Collection::Documents, &key) {
        Some(bytes) => Some(decode_document(bytes.as_slice())),
        None => None,
    }
}

/// The ids of all documents, in ascending order.
pub fn list_document_ids(store: &Store) -> (ids: Vec<String>)
    requires
        store.wf(),
    ensures
        lists_keys(ids@, store.contents(Collection::Documents)),
{
    list_ids(store, Collection::Documents)
}

// ---------------------------------------------------------------- institutions

/// The institution stored under `institution_id`, if any. Corrupted bytes
/// read as the empty institution.
pub fn get_institution_safe(store: &Store, institution_id: &str) -> (found: Option<Institution>)
    ensures
        found.is_some() == store.contents(Collection::Institutions).contains_key(
            encode_utf8(institution_id@),
        ),
        found.is_some() ==> found.unwrap()@ == decode_institution_spec(
            store.contents(Collection::Institutions)[encode_utf8(institution_id@)],
        ),
{
    let key = text_bytes(institution_id);
    match store.get_raw(Collection::Institutions, &key) {
        Some(bytes) => Some(decode_institution(bytes.as_slice())),
        None => None,
    }
}

/// Stores `institution` under `institution_id`. The write is refused, and
/// nothing changes, when the key is empty, when the institution's own id is
/// not the key, or when key or record exceed the entry limit. An institution
/// that was stored reads back as itself.
pub fn update_institution_safe(
    store: &mut Store,
    institution_id: &str,
    institution: &Institution,
) -> (outcome: Result<(), StoreError>)
    requires
        old(store).wf(),
    ensures
        final(store).wf(),
        outcome == write_outcome(
            encode_utf8(institution_id@),
            encode_utf8(institution@.institution_id),
            encode_institution_spec(institution@),
            true,
        ),
        outcome.is_ok() ==> final(store).contents(Collection::Institutions) == old(
            store,
        ).contents(Collection::Institutions).insert(
            encode_utf8(institution_id@),
            encode_institution_spec(institution@),
        ),
        outcome.is_ok() ==> decode_institution_spec(
            final(store).contents(Collection::Institutions)[encode_utf8(institution_id@)],
        ) == institution@,
        outcome.is_err() ==> final(store).contents(Collection::Institutions) == old(
            store,
        ).contents(Collection::Institutions),
        forall|d: Collection|
            d != Collection::Institutions ==> #[trigger] final(store).contents(d) == old(
                store,
            ).contents(d),
{
    let key = text_bytes(institution_id);
    let id = text_bytes(institution.institution_id.as_str());
    let value = encode_institution(institution);
    proof {
        law_institution_round_trip(institution@);
    }
    checked_put(store, Collection::Institutions, key, &id, value, true)
}

/// Removes the institution stored under `institution_id` and returns it.
pub fn remove_institution(store: &mut Store, institution_id: &str) -> (removed: Option<
    Institution,
>)
    requires
        old(store).wf(),
    ensures
        final(store).wf(),
        final(store).contents(Collection::Institutions) == old(store).contents(
            Collection::Institutions,
        ).remove(encode_utf8(institution_id@)),
        forall|d: Collection|
            d != Collection::Institutions ==> #[trigger] final(store).contents(d) == old(
                store,
            ).contents(d),
        removed.is_some() == old(store).contents(Collection::Institutions).contains_key(
            encode_utf8(institution_id@),
        ),
        removed.is_some() ==> removed.unwrap()@ == decode_institution_spec(
            old(store).contents(Collection::Institutions)[encode_utf8(institution_id@)],
        ),
{
    let key = text_bytes(institution_id);
    match store.remove_raw(Collection::Institutions, &key) {
        Some(bytes) => Some(decode_institution(bytes.as_slice())),
        None => None,
    }
}

/// The ids of all institutions, in ascending order.
pub fn list_institution_ids(store: &Store) -> (ids: Vec<String>)
    requires
        store.wf(),
    ensures
        lists_keys(ids@, store.contents(Collection::Institutions)),
{
    list_ids(store, Collection::Institutions)
}

// --------------------------------------------------------------- user profiles

/// The profile stored under `user_identity`, if any. Corrupted bytes read as
/// the empty profile.
pub fn get_user_profile_safe(store: &Store, user_identity: &Vec<u8>) -> (found: Option<
    UserProfile,
>)
    ensures
        found.is_some() == store.contents(Collection::UserProfiles).contains_key(user_identity@),
        found.is_some() ==> found.unwrap()@ == decode_user_profile_spec(
            store.contents(Collection::UserProfiles)[user_identity@],
        ),
{
    match store.get_raw(Collection::UserProfiles, user_identity) {
        Some(bytes) => Some(decode_user_profile(bytes.as_slice())),
        None => None,
    }
}

/// Stores `profile` under `user_identity`. The write is refused, and nothing
/// changes, when the profile's own identity is not the key, or when key or
/// record exceed the entry limit. A profile that was stored reads back as
/// itself.
pub fn update_user_profile_safe(
    store: &mut Store,
    user_identity: &Vec<u8>,
    profile: &UserProfile,
) -> (outcome: Result<(), StoreError>)
    requires
        old(store).wf(),
    ensures
        final(store).wf(),
        outcome == write_outcome(
            user_identity@,
            profile@.internet_identity,
            encode_user_profile_spec(profile@),
            false,
        ),
        outcome.is_ok() ==> final(store).contents(Collection::UserProfiles) == old(
            store,
        ).contents(Collection::UserProfiles).insert(
            user_identity@,
            encode_user_profile_spec(profile@),
        ),
        outcome.is_ok() ==> decode_user_profile_spec(
            final(store).contents(Collection::UserProfiles)[user_identity@],
        ) == profile@,
        outcome.is_err() ==> final(store).contents(Collection::UserProfiles) == old(
            store,
        ).contents(Collection::UserProfiles),
        forall|d: Collection|
            d != Collection::UserProfiles ==> #[trigger] final(store).contents(d) == old(
                store,
            ).contents(d),
{
    let key = slice_to_vec(user_identity.as_slice());
    let value = encode_user_profile(profile);
    proof {
        law_user_profile_round_trip(profile@);
    }
    checked_put(store, Collection::UserProfiles, key, &profile.internet_identity, value, false)
}

/// Removes the profile stored under `user_identity` and returns it.
pub fn remove_user_profile(store: &mut Store, user_identity: &Vec<u8>) -> (removed: Option<
    UserProfile,
>)
    requires
        old(store).wf(),
    ensures
        final(store).wf(),
        final(store).contents(Collection::UserProfiles) == old(store).contents(
            Collection::UserProfiles,
        ).remove(user_identity@),
        forall|d: Collection|
            d != Collection::UserProfiles ==> #[trigger] final(store).contents(d) == old(
                store,
            ).contents(d),
        removed.is_some() == old(store).contents(Collection::UserProfiles).contains_key(
            user_identity@,
        ),
        removed.is_some() ==> removed.unwrap()@ == decode_user_profile_spec(
            old(store).contents(Collection::UserProfiles)[user_identity@],
        ),
{
    match store.remove_raw(Collection::UserProfiles, user_identity) {
        Some(bytes) => Some(decode_user_profile(bytes.as_slice())),
        None => None,
    }
}

// ----------------------------------------------------------------- token lists

/// The token list stored for `owner`, if any. Corrupted bytes read as the
/// empty list.
pub fn get_owner_tokens(store: &Store, owner: &Vec<u8>) -> (found: Option<Vec<String>>)
    ensures
        found.is_some() == store.contents(Collection::OwnerTokens).contains_key(owner@),
        found.is_some() ==> texts_view(found.unwrap()@) == decode_token_list_spec(
            store.contents(Collection::OwnerTokens)[owner@],
        ),
{
    match store.get_raw(Collection::OwnerTokens, owner) {
        Some(bytes) => Some(decode_token_list(bytes.as_slice())),
        None => None,
    }
}

/// Stores the token list of `owner`. The write is refused, and nothing
/// changes, when key or list exceed the entry limit. A list that was stored
/// reads back as itself.
pub fn set_owner_tokens(store: &mut Store, owner: &Vec<u8>, ids: &Vec<String>) -> (outcome: Result<
    (),
    StoreError,
>)
    requires
        old(store).wf(),
    ensures
        final(store).wf(),
        outcome == write_outcome(
            owner@,
            owner@,
            encode_token_list_spec(texts_view(ids@)),
            false,
        ),
        outcome.is_ok() ==> final(store).contents(Collection::OwnerTokens) == old(store).contents(
            Collection::OwnerTokens,
        ).insert(owner@, encode_token_list_spec(texts_view(ids@))),
        outcome.is_ok() ==> decode_token_list_spec(
            final(store).contents(Collection::OwnerTokens)[owner@],
        ) == texts_view(ids@),
        outcome.is_err() ==> final(store).contents(Collection::OwnerTokens) == old(
            store,
        ).contents(Collection::OwnerTokens),
        forall|d: Collection|
            d != Collection::OwnerTokens ==> #[trigger] final(store).contents(d) == old(
                store,
            ).contents(d),
{
    let key = slice_to_vec(owner.as_slice());
    let value = encode_token_list(ids);
    proof {
        law_token_list_round_trip(texts_view(ids@));
    }
    checked_put(store, Collection::OwnerTokens, key, owner, value, false)
}

// --------------------------------------------------------- create, not replace

/// Stores `document` under `document_id` unless a document is stored there
/// already; otherwise as `store_document_safe`.
pub fn create_document_safe(store: &mut Store, document_id: &str, document: &Document) -> (outcome:
    Result<(), StoreError>)
    requires
        old(store).wf(),
    ensures
        final(store).wf(),
        outcome == (if old(store).contents(Collection::Documents).contains_key(
            encode_utf8(document_id@),
        ) {
            Err(StoreError::AlreadyExists)
        } else {
            write_outcome(
                encode_utf8(document_id@),
                encode_utf8(document@.document_id),
                encode_document_spec(document@),
                true,
            )
        }),
        outcome.is_ok() ==> final(store).contents(Collection::Documents) == old(store).contents(
            Collection::Documents,
        ).insert(encode_utf8(document_id@), encode_document_spec(document@)),
        outcome.is_err() ==> final(store).contents(Collection::Documents) == old(store).contents(
            Collection::Documents,
        ),
        forall|d: Collection|
            d != Collection::Documents ==> #[trigger] final(store).contents(d) == old(
                store,
            ).contents(d),
{
    let key = text_bytes(document_id);
    if store.contains_raw(Collection::Documents, &key) {
        return Err(StoreError::AlreadyExists);
    }
    store_document_safe(store, document_id, document)
}

/// Stores `institution` under `institution_id` unless an institution is
/// stored there already; otherwise as `update_institution_safe`.
pub fn create_institution_safe(
    store: &mut Store,
    institution_id: &str,
    institution: &Institution,
) -> (outcome: Result<(), StoreError>)
    requires
        old(store).wf(),
    ensures
        final(store).wf(),
        outcome == (if old(store).contents(Collection::Institutions).contains_key(
            encode_utf8(institution_id@),
        ) {
            Err(StoreError::AlreadyExists)
        } else {
            write_outcome(
                encode_utf8(institution_id@),
                encode_utf8(institution@.institution_id),
                encode_institution_spec(institution@),
                true,
            )
        }),
        outcome.is_ok() ==> final(store).contents(Collection::Institutions) == old(
            store,
        ).contents(Collection::Institutions).insert(
            encode_utf8(institution_id@),
            encode_institution_spec(institution@),
        ),
        outcome.is_err() ==> final(store).contents(Collection::Institutions) == old(
            store,
        ).contents(Collection::Institutions),
        forall|d: Collection|
            d != Collection::Institutions ==> #[trigger] final(store).contents(d) == old(
                store,
            ).contents(d),
{
    let key = text_bytes(institution_id);
    if store.contains_raw(Collection::Institutions, &key) {
        return Err(StoreError::AlreadyExists);
    }
    update_institution_safe(store, institution_id, institution)
}

/// Stores `profile` under `user_identity` unless a profile is stored there
/// already; otherwise as `update_user_profile_safe`.
pub fn create_user_profile_safe(
    store: &mut Store,
    user_identity: &Vec<u8>,
    profile: &UserProfile,
) -> (outcome: Result<(), StoreError>)
    requires
        old(store).wf(),
    ensures
        final(store).wf(),
        outcome == (if old(store).contents(Collection::UserProfiles).contains_key(
            user_identity@,
        ) {
            Err(StoreError::AlreadyExists)
        } else {
            write_outcome(
                user_identity@,
                profile@.internet_identity,
                encode_user_profile_spec(profile@),
                false,
            )
        }),
        outcome.is_ok() ==> final(store).contents(Collection::UserProfiles) == old(
            store,
        ).contents(Collection::UserProfiles).insert(
            user_identity@,
            encode_user_profile_spec(profile@),
        ),
        outcome.is_err() ==> final(store).contents(Collection::UserProfiles) == old(
            store,
        ).contents(Collection::UserProfiles),
        forall|d: Collection|
            d != Collection::UserProfiles ==> #[trigger] final(store).contents(d) == old(
                store,
            ).contents(d),
{
    if store.contains_raw(Collection::UserProfiles, user_identity) {
        return Err(StoreError::AlreadyExists);
    }
    update_user_profile_safe(store, user_identity, profile)
}

// --------------------------------------------------- token records and index

/// The identities that have a profile, in ascending order.
pub fn list_user_identities(store: &Store) -> (identities: Vec<Vec<u8>>)
    requires
        store.wf(),
    ensures
        identities@.len() == store.contents(Collection::UserProfiles).dom().len(),
        forall|i: int, j: int|
            0 <= i < j < identities@.len() ==> bytes_lt(
                #[trigger] identities@[i]@,
                #[trigger] identities@[j]@,
            ),
        forall|i: int|
            0 <= i < identities@.len() ==> store.contents(Collection::UserProfiles).contains_key(
                #[trigger] identities@[i]@,
            ),
        forall|k: Seq<u8>| #[trigger]
            store.contents(Collection::UserProfiles).contains_key(k) ==> exists|i: int|
                0 <= i < identities@.len() && #[trigger] identities@[i]@ == k,
{
    let entries = store.entries(Collection::UserProfiles);
    let ghost listing = pairs_view(entries@);
    let mut identities: Vec<Vec<u8>> = Vec::new();
    let mut i: usize = 0;
    while i < entries.len()
        invariant
            i <= entries@.len(),
            identities@.len() == i,
            listing == pairs_view(entries@),
            forall|j: int| 0 <= j < i ==> (#[trigger] identities@[j])@ == listing[j].0,
        decreases entries@.len() - i,
    {
        identities.push(slice_to_vec(entries[i].0.as_slice()));
        i += 1;
    }
    proof {
        assert forall|k: Seq<u8>| #[trigger]
            store.contents(Collection::UserProfiles).contains_key(k) implies exists|i: int|
            0 <= i < identities@.len() && #[trigger] identities@[i]@ == k by {
            let i = choose|i: int| 0 <= i < listing.len() && #[trigger] listing[i].0 == k;
            assert(identities@[i]@ == k);
        }
        assert forall|i: int, j: int| 0 <= i < j < identities@.len() implies bytes_lt(
            #[trigger] identities@[i]@,
            #[trigger] identities@[j]@,
        ) by {
            assert(bytes_lt(listing[i].0, listing[j].0));
        }
        assert forall|i: int|
            0 <= i < identities@.len() implies store.contents(Collection::UserProfiles).contains_key(
            #[trigger] identities@[i]@,
        ) by {
            assert(store.contents(Collection::UserProfiles).contains_key(listing[i].0));
        }
    }
    identities
}

/// The transaction that minted the token of `document_id`, if the index has
/// one. Bytes that are not text read as the empty text.
pub fn get_document_nft(store: &Store, document_id: &str) -> (found: Option<String>)
    ensures
        found.is_some() == store.contents(Collection::DocumentNfts).contains_key(
            encode_utf8(document_id@),
        ),
        found.is_some() ==> found.unwrap()@ == text_or_empty(
            store.contents(Collection::DocumentNfts)[encode_utf8(document_id@)],
        ),
{
    let key = text_bytes(document_id);
    match store.get_raw(Collection::DocumentNfts, &key) {
        Some(bytes) => match text_from_bytes(bytes) {
            Some(text) => Some(text),
            None => Some(String::new()),
        },
        None => None,
    }
}

/// The text that the bytes spell; the empty text if they spell none.
pub open spec fn text_or_empty(bytes: Seq<u8>) -> Seq<char> {
    if valid_utf8(bytes) {
        decode_utf8(bytes)
    } else {
        Seq::empty()
    }
}

/// Records in the index that `transaction_id` minted the token of
/// `document_id`. The write is refused, and nothing changes, when the
/// document id is empty or when either exceeds the entry limit.
pub fn set_document_nft(store: &mut Store, document_id: &str, transaction_id: &str) -> (outcome:
    Result<(), StoreError>)
    requires
        old(store).wf(),
    ensures
        final(store).wf(),
        outcome == write_outcome(
            encode_utf8(document_id@),
            encode_utf8(document_id@),
            encode_utf8(transaction_id@),
            true,
        ),
        outcome.is_ok() ==> final(store).contents(Collection::DocumentNfts) == old(
            store,
        ).contents(Collection::DocumentNfts).insert(
            encode_utf8(document_id@),
            encode_utf8(transaction_id@),
        ),
        outcome.is_ok() ==> text_or_empty(
            final(store).contents(Collection::DocumentNfts)[encode_utf8(document_id@)],
        ) == transaction_id@,
        outcome.is_err() ==> final(store).contents(Collection::DocumentNfts) == old(
            store,
        ).contents(Collection::DocumentNfts),
        forall|d: Collection|
            d != Collection::DocumentNfts ==> #[trigger] final(store).contents(d) == old(
                store,
            ).contents(d),
{
    let key = text_bytes(document_id);
    let id = text_bytes(document_id);
    let value = text_bytes(transaction_id);
    checked_put(store, Collection::DocumentNfts, key, &id, value, true)
}

/// The token record stored under `transaction_id`, if any, as its bytes.
pub fn get_nft_record(store: &Store, transaction_id: &str) -> (found: Option<Vec<u8>>)
    ensures
        found.is_some() == store.contents(Collection::Nfts).contains_key(
            encode_utf8(transaction_id@),
        ),
        found.is_some() ==> found.unwrap()@ == store.contents(Collection::Nfts)[encode_utf8(
            transaction_id@,
        )],
{
    let key = text_bytes(transaction_id);
    store.get_raw(Collection::Nfts, &key)
}

/// Stores the bytes of a token record under `transaction_id`. The write is
/// refused, and nothing changes, when the transaction id is empty or when it
/// or the record exceed the entry limit.
pub fn put_nft_record(store: &mut Store, transaction_id: &str, record: &Vec<u8>) -> (outcome:
    Result<(), StoreError>)
    requires
        old(store).wf(),
    ensures
        final(store).wf(),
        outcome == write_outcome(
            encode_utf8(transaction_id@),
            encode_utf8(transaction_id@),
            record@,
            true,
        ),
        outcome.is_ok() ==> final(store).contents(Collection::Nfts) == old(store).contents(
            Collection::Nfts,
        ).insert(encode_utf8(transaction_id@), record@),
        outcome.is_err() ==> final(store).contents(Collection::Nfts) == old(store).contents(
            Collection::Nfts,
        ),
        forall|d: Collection|
            d != Collection::Nfts ==> #[trigger] final(store).contents(d) == old(store).contents(
                d,
            ),
{
    let key = text_bytes(transaction_id);
    let id = text_bytes(transaction_id);
    let value = slice_to_vec(record.as_slice());
    checked_put(store, Collection::Nfts, key, &id, value, true)
}

/// Round-trip identity of the safe accessors: whatever a collection held
/// before, a record written under a key is the record read under that key.
pub proof fn law_store_then_get(
    before: Map<Seq<u8>, Seq<u8>>,
    key: Seq<u8>,
    document: DocumentView,
    institution: InstitutionView,
    profile: UserProfileView,
)
    requires
        all_fit(document_fields(document)),
        all_fit(institution_fields(institution)),
        all_fit(user_profile_fields(profile)),
    ensures
        decode_document_spec(before.insert(key, encode_document_spec(document))[key]) == document,
        decode_institution_spec(before.insert(key, encode_institution_spec(institution))[key])
            == institution,
        decode_user_profile_spec(before.insert(key, encode_user_profile_spec(profile))[key])
            == profile,
{
    law_document_round_trip(document);
    law_institution_round_trip(institution);
    law_user_profile_round_trip(profile);
}

} // verus!
