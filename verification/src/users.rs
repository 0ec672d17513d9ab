//! Registering users and tracking their logins: the rules that decide, and
//! the writes that follow from them.

use crate::access::{get_user_profile_safe, update_user_profile_safe, write_outcome};
use crate::codec::{decode_user_profile, decode_user_profile_spec, encode_user_profile_spec};
use crate::logging::text_is;
use crate::records::{
    anonymous_identity_spec, is_anonymous, UserProfile, UserProfileView, UserRole, UserRoleView,
};
use crate::store::{Collection, Store};
use crate::typed_map::{is_listing_of, pairs_view};
use crate::validate::{
    byte_len, email_outcome, length_message, trimmed, validate_email, validate_string_length,
};
use vstd::prelude::*;
use vstd::slice::*;
use vstd::string::*;

verus! {

/// Whether some profile has the email address `email`.
pub open spec fn email_taken(profiles: Map<Seq<u8>, Seq<u8>>, email: Seq<char>) -> bool {
    exists|k: Seq<u8>| #[trigger]
        profiles.contains_key(k) && decode_user_profile_spec(profiles[k]).email == email
}

/// Whether some profile has the email address `email`.
pub fn email_exists(store: &Store, email: &str) -> (taken: bool)
    requires
        store.wf(),
    ensures
        taken == email_taken(store.contents(Collection::UserProfiles), email@),
{
    let entries = store.entries(Collection::UserProfiles);
    let ghost listing = pairs_view(entries@);
    let ghost profiles = store.contents(Collection::UserProfiles);
    let mut i: usize = 0;
    while i < entries.len()
        invariant
            i <= entries@.len(),
            listing == pairs_view(entries@),
            profiles == store.contents(Collection::UserProfiles),
            is_listing_of(listing, profiles),
            forall|j: int| 0 <= j < i ==> decode_user_profile_spec(listing[j].1).email != email@,
        decreases entries@.len() - i,
    {
        let profile = decode_user_profile(entries[i].1.as_slice());
        proof {
            assert(listing[i as int] == (entries@[i as int].0@, entries@[i as int].1@));
            assert(profiles.contains_key(listing[i as int].0));
        }
        if text_is(profile.email.as_str(), email) {
            return true;
        }
        i += 1;
    }
    proof {
        if email_taken(profiles, email@) {
            let k = choose|k: Seq<u8>| #[trigger]
                profiles.contains_key(k) && decode_user_profile_spec(profiles[k]).email == email@;
            let j = choose|j: int| 0 <= j < listing.len() && #[trigger] listing[j].0 == k;
            assert(listing[j].1 == profiles[k]);
        }
    }
    false
}

/// The profile of a user who registers at `timestamp`.
pub open spec fn registered(caller: Seq<u8>, name: Seq<char>, email: Seq<char>, timestamp: u64)
    -> UserProfileView {
    UserProfileView {
        internet_identity: caller,
        name: name,
        email: email,
        role: UserRoleView::RegularUser,
        assigned_institution_id: Seq::empty(),
        created_at: timestamp,
        last_login: timestamp,
    }
}

/// Why a user cannot register, if not: the checks in the order they are
/// made.
pub open spec fn register_refusal(
    profiles: Map<Seq<u8>, Seq<u8>>,
    caller: Seq<u8>,
    name: Seq<char>,
    email: Seq<char>,
    timestamp: u64,
) -> Option<Seq<char>> {
    if caller == anonymous_identity_spec() {
        Some(
            "Anonymous users cannot perform this action. Please log in with Internet Identity first."@,
        )
    } else if !(2 <= byte_len(trimmed(name)) <= 100) {
        Some(length_message("Name"@, 2, 100))
    } else if email_outcome(email) is Err {
        Some(email_outcome(email)->Err_0)
    } else if profiles.contains_key(caller) {
        Some("User already registered. Use login_user to track login."@)
    } else if email_taken(profiles, email) {
        Some("Email already registered. Please use a different email address."@)
    } else {
        match write_outcome(
            caller,
            caller,
            encode_user_profile_spec(registered(caller, name, email, timestamp)),
            false,
        ) {
            Ok(_) => None,
            Err(error) => Some(error.message_text()),
        }
    }
}

/// Registers `caller` as a regular user at `timestamp`. The caller must not
/// be anonymous nor registered already, the name and the email address must
/// pass their checks, and the address must not be taken. Nothing is stored
/// when the request is refused.
pub fn register_user(store: &mut Store, caller: &Vec<u8>, name: String, email: String, timestamp: u64)
    -> (outcome: Result<UserProfile, String>)
    requires
        old(store).wf(),
    ensures
        final(store).wf(),
        forall|d: Collection|
            d != Collection::UserProfiles ==> #[trigger] final(store).contents(d) == old(
                store,
            ).contents(d),
        match register_refusal(
            old(store).contents(Collection::UserProfiles),
            caller@,
            name@,
            email@,
            timestamp,
        ) {
            Some(message) => outcome.is_err() && outcome.unwrap_err()@ == message && final(store).contents(Collection::UserProfiles) == old(store).contents(Collection::UserProfiles),
            None => outcome.is_ok() && outcome.unwrap()@ == registered(
                caller@,
                name@,
                email@,
                timestamp,
            ) && final(store).contents(Collection::UserProfiles) == old(store).contents(
                Collection::UserProfiles,
            ).insert(
                caller@,
                encode_user_profile_spec(registered(caller@, name@, email@, timestamp)),
            ),
        },
{
    if is_anonymous(caller) {
        return Err(
            String::from_str(
                "Anonymous users cannot perform this action. Please log in with Internet Identity first.",
            ),
        );
    }
    match validate_string_length(name.as_str(), 2, 100, "Name") {
        Err(e) => { return Err(e); },
        Ok(_) => {},
    }
    match validate_email(email.as_str()) {
        Err(e) => { return Err(e); },
        Ok(_) => {},
    }
    if store.contains_raw(Collection::UserProfiles, caller) {
        return Err(String::from_str("User already registered. Use login_user to track login."));
    }
    if email_exists(store, email.as_str()) {
        return Err(
            String::from_str("Email already registered. Please use a different email address."),
        );
    }
    let profile = UserProfile {
        internet_identity: slice_to_vec(caller.as_slice()),
        name,
        email,
        role: UserRole::RegularUser,
        assigned_institution_id: String::new(),
        created_at: timestamp,
        last_login: timestamp,
    };
    assert(profile@.assigned_institution_id =~= Seq::<char>::empty());
    match update_user_profile_safe(store, caller, &profile) {
        Err(e) => Err(String::from_str(e.message())),
        Ok(_) => Ok(profile),
    }
}

/// The profile with a new time of last login.
pub open spec fn logged_in(profile: UserProfileView, timestamp: u64) -> UserProfileView {
    UserProfileView { last_login: timestamp, ..profile }
}

/// Why a login cannot be tracked, if not: the checks in the order they are
/// made.
pub open spec fn login_refusal(profiles: Map<Seq<u8>, Seq<u8>>, caller: Seq<u8>, timestamp: u64)
    -> Option<Seq<char>> {
    if caller == anonymous_identity_spec() {
        Some(
            "Anonymous users cannot perform this action. Please log in with Internet Identity first."@,
        )
    } else if !profiles.contains_key(caller) {
        Some("User not found. Please register first."@)
    } else {
        match write_outcome(
            caller,
            decode_user_profile_spec(profiles[caller]).internet_identity,
            encode_user_profile_spec(
                logged_in(decode_user_profile_spec(profiles[caller]), timestamp),
            ),
            false,
        ) {
            Ok(_) => None,
            Err(error) => Some(error.message_text()),
        }
    }
}

/// Tracks a login of `caller` at `timestamp`: the profile gets the time as
/// its last login and is returned. Nothing is stored when the request is
/// refused.
pub fn login_user(store: &mut Store, caller: &Vec<u8>, timestamp: u64) -> (outcome: Result<
    UserProfile,
    String,
>)
    requires
        old(store).wf(),
    ensures
        final(store).wf(),
        forall|d: Collection|
            d != Collection::UserProfiles ==> #[trigger] final(store).contents(d) == old(
                store,
            ).contents(d),
        match login_refusal(old(store).contents(Collection::UserProfiles), caller@, timestamp) {
            Some(message) => outcome.is_err() && outcome.unwrap_err()@ == message && final(store).contents(Collection::UserProfiles) == old(store).contents(Collection::UserProfiles),
            None => outcome.is_ok() && outcome.unwrap()@ == logged_in(
                decode_user_profile_spec(
                    old(store).contents(Collection::UserProfiles)[caller@],
                ),
                timestamp,
            ) && final(store).contents(Collection::UserProfiles) == old(store).contents(
                Collection::UserProfiles,
            ).insert(
                caller@,
                encode_user_profile_spec(
                    logged_in(
                        decode_user_profile_spec(
                            old(store).contents(Collection::UserProfiles)[caller@],
                        ),
                        timestamp,
                    ),
                ),
            ),
        },
{
    if is_anonymous(caller) {
        return Err(
            String::from_str(
                "Anonymous users cannot perform this action. Please log in with Internet Identity first.",
            ),
        );
    }
    let mut profile = match get_user_profile_safe(store, caller) {
        Some(profile) => profile,
        None => { return Err(String::from_str("User not found. Please register first.")); },
    };
    let ghost before = profile@;
    profile.last_login = timestamp;
    assert(profile@ == logged_in(before, timestamp));
    match update_user_profile_safe(store, caller, &profile) {
        Err(e) => Err(String::from_str(e.message())),
        Ok(_) => Ok(profile),
    }
}

} // verus!
