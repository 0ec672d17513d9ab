//! The integrity validator: a read-only pass over the collections that
//! reports what is structurally wrong and never stops anything.

use crate::access::same_bytes;
use crate::codec::{
    decode_document, decode_document_spec, decode_institution, decode_institution_spec,
    decode_user_profile, decode_user_profile_spec,
};
use crate::logging::LogSeverity;
use crate::records::{document_sentinel, institution_sentinel};
use crate::store::{Collection, Store};
use crate::text::text_bytes;
use crate::validate::has_char;
use crate::token_list::{decode_token_list, decode_token_list_spec, texts_view};
use crate::store::collection_ok;
use crate::typed_map::{is_listing_of, lemma_listing_unique, pairs_view};
use vstd::prelude::*;
use vstd::slice::*;
use vstd::string::*;
use vstd::utf8::*;

verus! {

/// What a finding is about.
#[derive(Clone, Copy, Debug, PartialEq, Eq, Structural)]
pub enum FindingKind {
    /// The record's own id or identity is not the key it is stored under.
    KeyMismatch,
    /// The record's id is empty.
    EmptyId,
    /// The record's name is empty.
    EmptyName,
    /// The profile's email address is there but holds no `@`.
    InvalidEmail,
    /// A token list names a document that does not exist.
    OrphanedReference,
}

/// One thing the validator found.
#[derive(Clone, Debug, PartialEq, Eq)]
pub struct Finding {
    pub kind: FindingKind,
    /// The collection the record is in.
    pub collection: Collection,
    /// The key the record is stored under.
    pub key: Vec<u8>,
    /// For an orphaned reference, the id that is named; otherwise empty.
    pub reference: Vec<u8>,
}

/// What a finding holds.
pub ghost struct FindingView {
    pub kind: FindingKind,
    pub collection: Collection,
    pub key: Seq<u8>,
    pub reference: Seq<u8>,
}

impl View for Finding {
    type V = FindingView;

    open spec fn view(&self) -> FindingView {
        FindingView {
            kind: self.kind,
            collection: self.collection,
            key: self.key@,
            reference: self.reference@,
        }
    }
}

/// What a list of findings holds.
pub open spec fn findings_view(findings: Seq<Finding>) -> Seq<FindingView> {
    Seq::new(findings.len(), |i: int| findings[i]@)
}

/// The finding of kind `kind` about the record `key` of collection `c`, if
/// `found` holds; nothing otherwise.
pub open spec fn note_if(found: bool, kind: FindingKind, c: Collection, key: Seq<u8>) -> Seq<
    FindingView,
> {
    if found {
        seq![FindingView { kind: kind, collection: c, key: key, reference: Seq::empty() }]
    } else {
        Seq::empty()
    }
}

/// What is wrong with a document entry. The key check is passed over for the
/// empty document.
pub open spec fn document_findings(key: Seq<u8>, bytes: Seq<u8>) -> Seq<FindingView> {
    let d = decode_document_spec(bytes);
    note_if(
        d != document_sentinel() && encode_utf8(d.document_id) != key,
        FindingKind::KeyMismatch,
        Collection::Documents,
        key,
    ) + note_if(d.document_id.len() == 0, FindingKind::EmptyId, Collection::Documents, key)
        + note_if(d.name.len() == 0, FindingKind::EmptyName, Collection::Documents, key)
}

/// What is wrong with an institution entry. The key check is passed over for
/// the empty institution.
pub open spec fn institution_findings(key: Seq<u8>, bytes: Seq<u8>) -> Seq<FindingView> {
    let v = decode_institution_spec(bytes);
    note_if(
        v != institution_sentinel() && encode_utf8(v.institution_id) != key,
        FindingKind::KeyMismatch,
        Collection::Institutions,
        key,
    ) + note_if(v.institution_id.len() == 0, FindingKind::EmptyId, Collection::Institutions, key)
        + note_if(v.name.len() == 0, FindingKind::EmptyName, Collection::Institutions, key)
}

/// What is wrong with a user profile entry.
pub open spec fn profile_findings(key: Seq<u8>, bytes: Seq<u8>) -> Seq<FindingView> {
    let p = decode_user_profile_spec(bytes);
    note_if(
        p.internet_identity != key,
        FindingKind::KeyMismatch,
        Collection::UserProfiles,
        key,
    ) + note_if(
        p.email.len() > 0 && !p.email.contains('@'),
        FindingKind::InvalidEmail,
        Collection::UserProfiles,
        key,
    )
}

/// The ids of a token list that name no document, each as a finding.
pub open spec fn reference_findings(
    owner: Seq<u8>,
    ids: Seq<Seq<char>>,
    documents: Map<Seq<u8>, Seq<u8>>,
) -> Seq<FindingView>
    decreases ids.len(),
{
    if ids.len() == 0 {
        Seq::empty()
    } else {
        reference_findings(owner, ids.drop_last(), documents) + (if documents.contains_key(
            encode_utf8(ids.last()),
        ) {
            Seq::empty()
        } else {
            seq![
                FindingView {
                    kind: FindingKind::OrphanedReference,
                    collection: Collection::OwnerTokens,
                    key: owner,
                    reference: encode_utf8(ids.last()),
                },
            ]
        })
    }
}

/// What is wrong with one entry of collection `c`. Token records and the
/// document index are not examined.
pub open spec fn entry_findings(
    c: Collection,
    key: Seq<u8>,
    bytes: Seq<u8>,
    documents: Map<Seq<u8>, Seq<u8>>,
) -> Seq<FindingView> {
    match c {
        Collection::Documents => document_findings(key, bytes),
        Collection::Institutions => institution_findings(key, bytes),
        Collection::UserProfiles => profile_findings(key, bytes),
        Collection::OwnerTokens => reference_findings(key, decode_token_list_spec(bytes), documents),
        _ => Seq::empty(),
    }
}

/// What is wrong with the listed entries of collection `c`, in order.
pub open spec fn listing_findings(
    c: Collection,
    listing: Seq<(Seq<u8>, Seq<u8>)>,
    documents: Map<Seq<u8>, Seq<u8>>,
) -> Seq<FindingView>
    decreases listing.len(),
{
    if listing.len() == 0 {
        Seq::empty()
    } else {
        listing_findings(c, listing.drop_last(), documents) + entry_findings(
            c,
            listing.last().0,
            listing.last().1,
            documents,
        )
    }
}

/// `findings` is what the validator reports for the store: the findings of
/// the documents, the institutions, the user profiles and the token lists,
/// each collection walked in ascending key order.
pub open spec fn is_report_of(findings: Seq<FindingView>, store: Store) -> bool {
    exists|
        documents: Seq<(Seq<u8>, Seq<u8>)>,
        institutions: Seq<(Seq<u8>, Seq<u8>)>,
        profiles: Seq<(Seq<u8>, Seq<u8>)>,
        tokens: Seq<(Seq<u8>, Seq<u8>)>,
    | #[trigger]
        reports(findings, store, documents, institutions, profiles, tokens)
}

/// `findings` is the report over these four listings of the store.
pub open spec fn reports(
    findings: Seq<FindingView>,
    store: Store,
    documents: Seq<(Seq<u8>, Seq<u8>)>,
    institutions: Seq<(Seq<u8>, Seq<u8>)>,
    profiles: Seq<(Seq<u8>, Seq<u8>)>,
    tokens: Seq<(Seq<u8>, Seq<u8>)>,
) -> bool {
    let held = store.contents(Collection::Documents);
    &&& is_listing_of(documents, store.contents(Collection::Documents))
    &&& is_listing_of(institutions, store.contents(Collection::Institutions))
    &&& is_listing_of(profiles, store.contents(Collection::UserProfiles))
    &&& is_listing_of(tokens, store.contents(Collection::OwnerTokens))
    &&& findings == listing_findings(Collection::Documents, documents, held) + listing_findings(
        Collection::Institutions,
        institutions,
        held,
    ) + listing_findings(Collection::UserProfiles, profiles, held) + listing_findings(
        Collection::OwnerTokens,
        tokens,
        held,
    )
}

fn note(out: &mut Vec<Finding>, found: bool, kind: FindingKind, c: Collection, key: &Vec<u8>)
    ensures
        findings_view(final(out)@) == findings_view(old(out)@) + note_if(found, kind, c, key@),
{
    if found {
        out.push(
            Finding {
                kind,
                collection: c,
                key: slice_to_vec(key.as_slice()),
                reference: Vec::new(),
            },
        );
    }
    assert(findings_view(out@) =~= findings_view(old(out)@) + note_if(found, kind, c, key@));
}

fn check_references(
    out: &mut Vec<Finding>,
    store: &Store,
    owner: &Vec<u8>,
    ids: &Vec<String>,
)
    ensures
        findings_view(final(out)@) == findings_view(old(out)@) + reference_findings(
            owner@,
            texts_view(ids@),
            store.contents(Collection::Documents),
        ),
{
    let ghost texts = texts_view(ids@);
    let ghost held = store.contents(Collection::Documents);
    let mut i: usize = 0;
    assert(findings_view(out@) =~= findings_view(old(out)@) + reference_findings(
        owner@,
        texts.take(0),
        held,
    ));
    while i < ids.len()
        invariant
            i <= ids@.len(),
            texts == texts_view(ids@),
            held == store.contents(Collection::Documents),
            findings_view(out@) == findings_view(old(out)@) + reference_findings(
                owner@,
                texts.take(i as int),
                held,
            ),
        decreases ids@.len() - i,
    {
        let id = text_bytes(ids[i].as_str());
        let ghost earlier = findings_view(out@);
        proof {
            assert(texts.take(i + 1).drop_last() =~= texts.take(i as int));
            assert(texts.take(i + 1).last() == ids@[i as int]@);
        }
        if !store.contains_raw(Collection::Documents, &id) {
            out.push(
                Finding {
                    kind: FindingKind::OrphanedReference,
                    collection: Collection::OwnerTokens,
                    key: slice_to_vec(owner.as_slice()),
                    reference: id,
                },
            );
            assert(findings_view(out@) =~= earlier.push(out@[out@.len() - 1]@));
        }
        assert(findings_view(out@) =~= findings_view(old(out)@) + reference_findings(
            owner@,
            texts.take(i + 1),
            held,
        ));
        i += 1;
    }
    assert(texts.take(i as int) =~= texts);
}

fn check_entry(out: &mut Vec<Finding>, store: &Store, c: Collection, key: &Vec<u8>, bytes: &Vec<u8>)
    ensures
        findings_view(final(out)@) == findings_view(old(out)@) + entry_findings(
            c,
            key@,
            bytes@,
            store.contents(Collection::Documents),
        ),
{
    let ghost start = findings_view(out@);
    match c {
        Collection::Documents => {
            let document = decode_document(bytes.as_slice());
            let id = text_bytes(document.document_id.as_str());
            let mismatch = !document.is_sentinel() && !same_bytes(id.as_slice(), key.as_slice());
            note(out, mismatch, FindingKind::KeyMismatch, c, key);
            note(out, document.document_id.as_str().is_empty(), FindingKind::EmptyId, c, key);
            note(out, document.name.as_str().is_empty(), FindingKind::EmptyName, c, key);
            assert(findings_view(out@) =~= start + document_findings(key@, bytes@));
        },
        Collection::Institutions => {
            let institution = decode_institution(bytes.as_slice());
            let id = text_bytes(institution.institution_id.as_str());
            let mismatch = !institution.is_sentinel() && !same_bytes(
                id.as_slice(),
                key.as_slice(),
            );
            note(out, mismatch, FindingKind::KeyMismatch, c, key);
            note(out, institution.institution_id.as_str().is_empty(), FindingKind::EmptyId, c, key);
            note(out, institution.name.as_str().is_empty(), FindingKind::EmptyName, c, key);
            assert(findings_view(out@) =~= start + institution_findings(key@, bytes@));
        },
        Collection::UserProfiles => {
            let profile = decode_user_profile(bytes.as_slice());
            let mismatch = !same_bytes(profile.internet_identity.as_slice(), key.as_slice());
            let email = profile.email.as_str();
            let bad_email = !email.is_empty() && !has_char(email, '@');
            note(out, mismatch, FindingKind::KeyMismatch, c, key);
            note(out, bad_email, FindingKind::InvalidEmail, c, key);
            assert(findings_view(out@) =~= start + profile_findings(key@, bytes@));
        },
        Collection::OwnerTokens => {
            let ids = decode_token_list(bytes.as_slice());
            check_references(out, store, key, &ids);
        },
        _ => {
            assert(findings_view(out@) =~= start + Seq::<FindingView>::empty());
        },
    }
}

fn check_collection(out: &mut Vec<Finding>, store: &Store, c: Collection) -> (listing: Ghost<
    Seq<(Seq<u8>, Seq<u8>)>,
>)
    requires
        store.wf(),
    ensures
        is_listing_of(listing@, store.contents(c)),
        findings_view(final(out)@) == findings_view(old(out)@) + listing_findings(
            c,
            listing@,
            store.contents(Collection::Documents),
        ),
{
    let entries = store.entries(c);
    let ghost listing = pairs_view(entries@);
    let ghost held = store.contents(Collection::Documents);
    let mut i: usize = 0;
    assert(findings_view(out@) =~= findings_view(old(out)@) + listing_findings(
        c,
        listing.take(0),
        held,
    ));
    while i < entries.len()
        invariant
            i <= entries@.len(),
            listing == pairs_view(entries@),
            held == store.contents(Collection::Documents),
            findings_view(out@) == findings_view(old(out)@) + listing_findings(
                c,
                listing.take(i as int),
                held,
            ),
        decreases entries@.len() - i,
    {
        proof {
            assert(listing.take(i + 1).drop_last() =~= listing.take(i as int));
            assert(listing.take(i + 1).last() == listing[i as int]);
            assert(listing[i as int] == (entries@[i as int].0@, entries@[i as int].1@));
        }
        check_entry(out, store, c, &entries[i].0, &entries[i].1);
        assert(findings_view(out@) =~= findings_view(old(out)@) + listing_findings(
            c,
            listing.take(i + 1),
            held,
        ));
        i += 1;
    }
    assert(listing.take(i as int) =~= listing);
    Ghost(listing)
}

/// Examines the documents, institutions, user profiles and token lists and
/// reports every finding. The store is not changed.
pub fn run_integrity_validation(store: &Store) -> (findings: Vec<Finding>)
    requires
        store.wf(),
    ensures
        is_report_of(findings_view(findings@), *store),
{
    let mut out: Vec<Finding> = Vec::new();
    assert(findings_view(out@) =~= Seq::<FindingView>::empty());
    let documents = check_collection(&mut out, store, Collection::Documents);
    let institutions = check_collection(&mut out, store, Collection::Institutions);
    let profiles = check_collection(&mut out, store, Collection::UserProfiles);
    let tokens = check_collection(&mut out, store, Collection::OwnerTokens);
    proof {
        let held = store.contents(Collection::Documents);
        assert(findings_view(out@) =~= listing_findings(Collection::Documents, documents@, held)
            + listing_findings(Collection::Institutions, institutions@, held) + listing_findings(
            Collection::UserProfiles,
            profiles@,
            held,
        ) + listing_findings(Collection::OwnerTokens, tokens@, held));
        assert(reports(
            findings_view(out@),
            *store,
            documents@,
            institutions@,
            profiles@,
            tokens@,
        ));
    }
    out
}

/// How many of the findings are orphaned references.
pub open spec fn orphan_count(findings: Seq<FindingView>) -> nat
    decreases findings.len(),
{
    if findings.len() == 0 {
        0
    } else {
        orphan_count(findings.drop_last()) + (if findings.last().kind
            == FindingKind::OrphanedReference {
            1nat
        } else {
            0nat
        })
    }
}

/// Counts the orphaned references among the findings.
pub fn count_orphans(findings: &Vec<Finding>) -> (count: u64)
    ensures
        count == orphan_count(findings_view(findings@)),
{
    let ghost views = findings_view(findings@);
    let mut count: u64 = 0;
    let mut i: usize = 0;
    while i < findings.len()
        invariant
            i <= findings@.len(),
            views == findings_view(findings@),
            count == orphan_count(views.take(i as int)),
            count <= i,
        decreases findings@.len() - i,
    {
        proof {
            assert(views.take(i + 1).drop_last() =~= views.take(i as int));
            assert(views.take(i + 1).last() == findings@[i as int]@);
        }
        let orphan = match findings[i].kind {
            FindingKind::OrphanedReference => true,
            _ => false,
        };
        if orphan {
            count = count + 1;
        }
        i += 1;
    }
    assert(views.take(i as int) =~= views);
    count
}

/// How grave a finding is: an empty field is informational, everything else
/// is a warning.
pub fn finding_severity(kind: FindingKind) -> (severity: LogSeverity)
    ensures
        severity == (if kind == FindingKind::EmptyId || kind == FindingKind::EmptyName {
            LogSeverity::Info
        } else {
            LogSeverity::Warning
        }),
{
    match kind {
        FindingKind::EmptyId => LogSeverity::Info,
        FindingKind::EmptyName => LogSeverity::Info,
        _ => LogSeverity::Warning,
    }
}

/// A store has one report only.
pub proof fn law_report_unique(store: Store, first: Seq<FindingView>, second: Seq<FindingView>)
    requires
        store.wf(),
        is_report_of(first, store),
        is_report_of(second, store),
    ensures
        first == second,
{
    let (a0, a1, a2, a3) = choose|
        documents: Seq<(Seq<u8>, Seq<u8>)>,
        institutions: Seq<(Seq<u8>, Seq<u8>)>,
        profiles: Seq<(Seq<u8>, Seq<u8>)>,
        tokens: Seq<(Seq<u8>, Seq<u8>)>,
    | #[trigger] reports(first, store, documents, institutions, profiles, tokens);
    let (b0, b1, b2, b3) = choose|
        documents: Seq<(Seq<u8>, Seq<u8>)>,
        institutions: Seq<(Seq<u8>, Seq<u8>)>,
        profiles: Seq<(Seq<u8>, Seq<u8>)>,
        tokens: Seq<(Seq<u8>, Seq<u8>)>,
    | #[trigger] reports(second, store, documents, institutions, profiles, tokens);
    assert(collection_ok(store.contents(Collection::Documents), Collection::Documents));
    assert(collection_ok(store.contents(Collection::Institutions), Collection::Institutions));
    assert(collection_ok(store.contents(Collection::UserProfiles), Collection::UserProfiles));
    assert(collection_ok(store.contents(Collection::OwnerTokens), Collection::OwnerTokens));
    lemma_listing_unique(a0, b0, store.contents(Collection::Documents));
    lemma_listing_unique(a1, b1, store.contents(Collection::Institutions));
    lemma_listing_unique(a2, b2, store.contents(Collection::UserProfiles));
    lemma_listing_unique(a3, b3, store.contents(Collection::OwnerTokens));
}

} // verus!
