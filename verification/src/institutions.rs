//! Creating, changing and deleting institutions: the rules that decide, and
//! the writes that follow from them.

use crate::access::{
    get_institution_safe, same_bytes, update_institution_safe, write_outcome, };
use crate::codec::{decode_institution, decode_institution_spec, encode_institution_spec};
use crate::typed_map::{is_listing_of, pairs_view};
use crate::helpers::generate_institution_id;
use crate::logging::decimal_text;
use crate::records::{Institution, InstitutionView};
use crate::store::{Collection, Store};
use crate::text::text_bytes;
use crate::validate::{
    byte_len, email_outcome, length_message, trimmed, validate_email, validate_string_length,
};
use vstd::prelude::*;
use vstd::string::*;
use vstd::utf8::*;

verus! {

/// What a result with texts on both sides holds.
pub open spec fn id_outcome_view(outcome: Result<String, String>) -> Result<Seq<char>, Seq<char>> {
    match outcome {
        Ok(id) => Ok(id@),
        Err(message) => Err(message@),
    }
}

/// What a result with a text as its error holds.
pub open spec fn unit_outcome_view(outcome: Result<(), String>) -> Result<(), Seq<char>> {
    match outcome {
        Ok(_) => Ok(()),
        Err(message) => Err(message@),
    }
}

/// Why a name and an email address are refused, if they are: the name must
/// be 2 to 100 bytes long once trimmed, and the address must have the shape
/// of one.
pub open spec fn details_refusal(name: Seq<char>, email: Seq<char>) -> Option<Seq<char>> {
    if !(2 <= byte_len(trimmed(name)) <= 100) {
        Some(length_message("Institution name"@, 2, 100))
    } else {
        match email_outcome(email) {
            Err(message) => Some(message),
            Ok(_) => None,
        }
    }
}

fn check_details(name: &str, email: &str) -> (outcome: Result<(), String>)
    ensures
        match details_refusal(name@, email@) {
            Some(message) => outcome.is_err() && outcome.unwrap_err()@ == message,
            None => outcome.is_ok(),
        },
{
    match validate_string_length(name, 2, 100, "Institution name") {
        Err(e) => { return Err(e); },
        Ok(_) => {},
    }
    validate_email(email)
}

/// The id of an institution created at `timestamp`.
pub open spec fn created_id(timestamp: u64) -> Seq<char> {
    "INST_"@ + decimal_text(timestamp as nat)
}

/// The institution that `caller` creates at `timestamp`.
pub open spec fn created(name: Seq<char>, email: Seq<char>, caller: Seq<u8>, timestamp: u64)
    -> InstitutionView {
    InstitutionView {
        institution_id: created_id(timestamp),
        owner: caller,
        name: name,
        email: email,
        created_at: timestamp,
    }
}

/// What creating an institution comes to: the new id, or why it was refused.
pub open spec fn create_outcome(
    institutions: Map<Seq<u8>, Seq<u8>>,
    name: Seq<char>,
    email: Seq<char>,
    caller: Seq<u8>,
    timestamp: u64,
) -> Result<Seq<char>, Seq<char>> {
    match details_refusal(name, email) {
        Some(message) => Err(message),
        None => if institutions.contains_key(encode_utf8(created_id(timestamp))) {
            Err("Generated institution ID already exists. Please try again."@)
        } else {
            match write_outcome(
                encode_utf8(created_id(timestamp)),
                encode_utf8(created_id(timestamp)),
                encode_institution_spec(created(name, email, caller, timestamp)),
                true,
            ) {
                Ok(_) => Ok(created_id(timestamp)),
                Err(error) => Err(error.message_text()),
            }
        },
    }
}

/// Creates an institution owned by `caller`, with an id made from
/// `timestamp`. Nothing is stored when the request is refused.
pub fn create_institution(
    store: &mut Store,
    name: String,
    email: String,
    caller: &Vec<u8>,
    timestamp: u64,
) -> (outcome: Result<String, String>)
    requires
        old(store).wf(),
    ensures
        final(store).wf(),
        id_outcome_view(outcome) == create_outcome(
            old(store).contents(Collection::Institutions),
            name@,
            email@,
            caller@,
            timestamp,
        ),
        outcome.is_ok() ==> final(store).contents(Collection::Institutions) == old(
            store,
        ).contents(Collection::Institutions).insert(
            encode_utf8(created_id(timestamp)),
            encode_institution_spec(created(name@, email@, caller@, timestamp)),
        ),
        outcome.is_err() ==> final(store).contents(Collection::Institutions) == old(
            store,
        ).contents(Collection::Institutions),
        forall|d: Collection|
            d != Collection::Institutions ==> #[trigger] final(store).contents(d) == old(
                store,
            ).contents(d),
{
    match check_details(name.as_str(), email.as_str()) {
        Err(e) => { return Err(e); },
        Ok(_) => {},
    }
    let institution_id = generate_institution_id(timestamp);
    let key = text_bytes(institution_id.as_str());
    if store.contains_raw(Collection::Institutions, &key) {
        return Err(
            String::from_str("Generated institution ID already exists. Please try again."),
        );
    }
    let institution = Institution {
        institution_id: institution_id.clone(),
        owner: vstd::slice::slice_to_vec(caller.as_slice()),
        name,
        email,
        created_at: timestamp,
    };
    match update_institution_safe(store, institution_id.as_str(), &institution) {
        Err(e) => Err(String::from_str(e.message())),
        Ok(_) => Ok(institution_id),
    }
}

/// Why `caller` may not change or delete an institution, if not.
pub open spec fn ownership_refusal(
    institutions: Map<Seq<u8>, Seq<u8>>,
    institution_id: Seq<char>,
    caller: Seq<u8>,
    denial: Seq<char>,
) -> Option<Seq<char>> {
    if !institutions.contains_key(encode_utf8(institution_id)) {
        Some("Institution not found"@)
    } else if decode_institution_spec(institutions[encode_utf8(institution_id)]).owner != caller {
        Some(denial)
    } else {
        None
    }
}

/// The institution with a new name and email address.
pub open spec fn renamed(institution: InstitutionView, name: Seq<char>, email: Seq<char>)
    -> InstitutionView {
    InstitutionView { name: name, email: email, ..institution }
}

/// What changing an institution comes to: done, or why it was refused.
pub open spec fn update_outcome(
    institutions: Map<Seq<u8>, Seq<u8>>,
    institution_id: Seq<char>,
    name: Seq<char>,
    email: Seq<char>,
    caller: Seq<u8>,
) -> Result<(), Seq<char>> {
    match ownership_refusal(
        institutions,
        institution_id,
        caller,
        "Only the institution owner can update metadata"@,
    ) {
        Some(message) => Err(message),
        None => match details_refusal(name, email) {
            Some(message) => Err(message),
            None => match write_outcome(
                encode_utf8(institution_id),
                encode_utf8(
                    decode_institution_spec(
                        institutions[encode_utf8(institution_id)],
                    ).institution_id,
                ),
                encode_institution_spec(
                    renamed(
                        decode_institution_spec(institutions[encode_utf8(institution_id)]),
                        name,
                        email,
                    ),
                ),
                true,
            ) {
                Ok(_) => Ok(()),
                Err(error) => Err(error.message_text()),
            },
        },
    }
}

/// Gives the institution `institution_id` a new name and email address, for
/// `caller`, who must own it. Nothing changes when the request is refused.
pub fn update_institution(
    store: &mut Store,
    institution_id: &str,
    name: String,
    email: String,
    caller: &Vec<u8>,
) -> (outcome: Result<(), String>)
    requires
        old(store).wf(),
    ensures
        final(store).wf(),
        unit_outcome_view(outcome) == update_outcome(
            old(store).contents(Collection::Institutions),
            institution_id@,
            name@,
            email@,
            caller@,
        ),
        outcome.is_ok() ==> final(store).contents(Collection::Institutions) == old(
            store,
        ).contents(Collection::Institutions).insert(
            encode_utf8(institution_id@),
            encode_institution_spec(
                renamed(
                    decode_institution_spec(
                        old(store).contents(Collection::Institutions)[encode_utf8(
                            institution_id@,
                        )],
                    ),
                    name@,
                    email@,
                ),
            ),
        ),
        outcome.is_err() ==> final(store).contents(Collection::Institutions) == old(
            store,
        ).contents(Collection::Institutions),
        forall|d: Collection|
            d != Collection::Institutions ==> #[trigger] final(store).contents(d) == old(
                store,
            ).contents(d),
{
    let mut institution = match get_institution_safe(store, institution_id) {
        Some(institution) => institution,
        None => { return Err(String::from_str("Institution not found")); },
    };
    if !same_bytes(institution.owner.as_slice(), caller.as_slice()) {
        return Err(String::from_str("Only the institution owner can update metadata"));
    }
    match check_details(name.as_str(), email.as_str()) {
        Err(e) => { return Err(e); },
        Ok(_) => {},
    }
    let ghost before = institution@;
    institution.name = name;
    institution.email = email;
    assert(institution@ == renamed(before, name@, email@));
    match update_institution_safe(store, institution_id, &institution) {
        Err(e) => Err(String::from_str(e.message())),
        Ok(_) => Ok(()),
    }
}

/// Deletes the institution `institution_id` for `caller`, who must own it.
/// Nothing changes when the request is refused.
pub fn delete_institution(store: &mut Store, institution_id: &str, caller: &Vec<u8>) -> (outcome:
    Result<(), String>)
    requires
        old(store).wf(),
    ensures
        final(store).wf(),
        match ownership_refusal(
            old(store).contents(Collection::Institutions),
            institution_id@,
            caller@,
            "Only the institution owner can delete the institution"@,
        ) {
            Some(message) => outcome.is_err() && outcome.unwrap_err()@ == message && final(store).contents(Collection::Institutions) == old(store).contents(Collection::Institutions),
            None => outcome.is_ok() && final(store).contents(Collection::Institutions) == old(
                store,
            ).contents(Collection::Institutions).remove(encode_utf8(institution_id@)),
        },
        forall|d: Collection|
            d != Collection::Institutions ==> #[trigger] final(store).contents(d) == old(
                store,
            ).contents(d),
{
    let institution = match get_institution_safe(store, institution_id) {
        Some(institution) => institution,
        None => { return Err(String::from_str("Institution not found")); },
    };
    if !same_bytes(institution.owner.as_slice(), caller.as_slice()) {
        return Err(String::from_str("Only the institution owner can delete the institution"));
    }
    let key = text_bytes(institution_id);
    store.remove_raw(Collection::Institutions, &key);
    Ok(())
}

/// What a list of institutions holds.
pub open spec fn institutions_view(institutions: Seq<Institution>) -> Seq<InstitutionView> {
    Seq::new(institutions.len(), |i: int| institutions[i]@)
}

/// The listed institutions, of `owner` if one is given, in the order of the
/// listing.
pub open spec fn listed_institutions(listing: Seq<(Seq<u8>, Seq<u8>)>, owner: Option<Seq<u8>>)
    -> Seq<InstitutionView>
    decreases listing.len(),
{
    if listing.len() == 0 {
        Seq::empty()
    } else {
        let institution = decode_institution_spec(listing.last().1);
        if owner is None || institution.owner == owner->0 {
            listed_institutions(listing.drop_last(), owner).push(institution)
        } else {
            listed_institutions(listing.drop_last(), owner)
        }
    }
}

fn collect_institutions(store: &Store, owner: Option<&Vec<u8>>) -> (found: Vec<Institution>)
    requires
        store.wf(),
    ensures
        exists|listing: Seq<(Seq<u8>, Seq<u8>)>| #[trigger]
            is_listing_of(listing, store.contents(Collection::Institutions)) && institutions_view(
                found@,
            ) == listed_institutions(
                listing,
                match owner {
                    Some(o) => Some(o@),
                    None => None,
                },
            ),
{
    let entries = store.entries(Collection::Institutions);
    let ghost listing = pairs_view(entries@);
    let ghost wanted: Option<Seq<u8>> = match owner {
        Some(o) => Some(o@),
        None => None,
    };
    let mut found: Vec<Institution> = Vec::new();
    let mut i: usize = 0;
    assert(institutions_view(found@) =~= listed_institutions(listing.take(0), wanted));
    while i < entries.len()
        invariant
            i <= entries@.len(),
            listing == pairs_view(entries@),
            wanted == (match owner {
                Some(o) => Some(o@),
                None => None,
            }),
            institutions_view(found@) == listed_institutions(listing.take(i as int), wanted),
        decreases entries@.len() - i,
    {
        let institution = decode_institution(entries[i].1.as_slice());
        proof {
            assert(listing.take(i + 1).drop_last() =~= listing.take(i as int));
            assert(listing.take(i + 1).last() == listing[i as int]);
            assert(listing[i as int].1 == entries@[i as int].1@);
        }
        let keep = match owner {
            Some(o) => same_bytes(institution.owner.as_slice(), o.as_slice()),
            None => true,
        };
        if keep {
            let ghost earlier = institutions_view(found@);
            let ghost view = institution@;
            found.push(institution);
            assert(institutions_view(found@) =~= earlier.push(view));
        }
        i += 1;
    }
    assert(listing.take(i as int) =~= listing);
    found
}

/// All institutions, in ascending order of their keys.
pub fn get_all_institutions(store: &Store) -> (found: Vec<Institution>)
    requires
        store.wf(),
    ensures
        exists|listing: Seq<(Seq<u8>, Seq<u8>)>| #[trigger]
            is_listing_of(listing, store.contents(Collection::Institutions)) && institutions_view(
                found@,
            ) == listed_institutions(listing, None),
{
    collect_institutions(store, None)
}

/// The institutions that `owner` owns, in ascending order of their keys.
pub fn get_institutions_by_owner(store: &Store, owner: &Vec<u8>) -> (found: Vec<Institution>)
    requires
        store.wf(),
    ensures
        exists|listing: Seq<(Seq<u8>, Seq<u8>)>| #[trigger]
            is_listing_of(listing, store.contents(Collection::Institutions)) && institutions_view(
                found@,
            ) == listed_institutions(listing, Some(owner@)),
{
    collect_institutions(store, Some(owner))
}

} // verus!
