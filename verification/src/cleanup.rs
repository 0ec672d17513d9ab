//! The corruption cleaner: removes the records that are proof of corruption.

use crate::codec::{
    decode_document, decode_document_spec, decode_user_profile, decode_user_profile_spec,
};
use crate::records::{anonymous_identity_spec, document_sentinel, is_anonymous};
use crate::store::{Collection, Store};
use crate::typed_map::{bytes_lt, is_listing_of, lemma_listing_distinct, pairs_view};
use vstd::prelude::*;
use vstd::slice::*;

verus! {

/// Whether the bytes of a document mark it for removal: the document they
/// decode to has no file, or is the empty document.
pub open spec fn document_doomed(bytes: Seq<u8>) -> bool {
    decode_document_spec(bytes).file_data.len() == 0 || decode_document_spec(bytes)
        == document_sentinel()
}

/// Whether the bytes of a user profile mark it for removal: the profile they
/// decode to has the anonymous identity.
pub open spec fn profile_doomed(bytes: Seq<u8>) -> bool {
    decode_user_profile_spec(bytes).internet_identity == anonymous_identity_spec()
}

/// Whether a value of collection `c` marks its record for removal. Only
/// documents and user profiles are ever removed.
pub open spec fn doomed(c: Collection, bytes: Seq<u8>) -> bool {
    match c {
        Collection::Documents => document_doomed(bytes),
        Collection::UserProfiles => profile_doomed(bytes),
        _ => false,
    }
}

/// The keys of `contents` whose records are marked for removal.
pub open spec fn doomed_keys(c: Collection, contents: Map<Seq<u8>, Seq<u8>>) -> Set<Seq<u8>> {
    Set::new(|k: Seq<u8>| contents.contains_key(k) && doomed(c, contents[k]))
}

/// What the cleaner leaves of the contents of collection `c`.
pub open spec fn cleaned(c: Collection, contents: Map<Seq<u8>, Seq<u8>>) -> Map<
    Seq<u8>,
    Seq<u8>,
> {
    contents.remove_keys(doomed_keys(c, contents))
}

/// One record that the cleaner removed.
#[derive(Clone, Debug, PartialEq, Eq)]
pub struct RemovedKey {
    /// The collection the record was in.
    pub collection: Collection,
    /// The key it was stored under.
    pub key: Vec<u8>,
}

/// What a run of the cleaner did.
#[derive(Clone, Debug)]
pub struct CleanupReport {
    /// How many records were removed.
    pub count_removed: u64,
    /// The records that were removed: documents first, then user profiles,
    /// each in ascending key order.
    pub removed_keys: Vec<RemovedKey>,
}

impl CleanupReport {
    /// Whether the report names the record `key` of collection `c`.
    pub open spec fn names(&self, c: Collection, key: Seq<u8>) -> bool {
        exists|i: int|
            0 <= i < self.removed_keys@.len() && (#[trigger] self.removed_keys@[i]).collection == c
                && self.removed_keys@[i].key@ == key
    }

    /// The documents are named before the user profiles, and the records of
    /// each collection in ascending key order.
    pub open spec fn ordered(&self) -> bool {
        forall|i: int, j: int|
            0 <= i < j < self.removed_keys@.len() ==> ((#[trigger] self.removed_keys@[i]).collection
                is Documents && (#[trigger] self.removed_keys@[j]).collection is UserProfiles) || (
            self.removed_keys@[i].collection == self.removed_keys@[j].collection && bytes_lt(
                self.removed_keys@[i].key@,
                self.removed_keys@[j].key@,
            ))
    }

    /// No record is named twice.
    pub open spec fn distinct(&self) -> bool {
        forall|i: int, j: int|
            0 <= i < j < self.removed_keys@.len() ==> !((#[trigger] self.removed_keys@[i]).collection
                == (#[trigger] self.removed_keys@[j]).collection && self.removed_keys@[i].key@
                == self.removed_keys@[j].key@)
    }
}

/// Removes from collection `c` every record marked for removal and appends
/// the removed keys to `removed`.
fn clean_collection(store: &mut Store, c: Collection, removed: &mut Vec<RemovedKey>)
    requires
        old(store).wf(),
        c is Documents || c is UserProfiles,
        forall|i: int| 0 <= i < old(removed)@.len() ==> (#[trigger] old(removed)@[i]).collection != c,
    ensures
        final(store).wf(),
        final(store).contents(c) == cleaned(c, old(store).contents(c)),
        forall|d: Collection|
            d != c ==> #[trigger] final(store).contents(d) == old(store).contents(d),
        final(removed)@.len() >= old(removed)@.len(),
        forall|i: int| 0 <= i < old(removed)@.len() ==> final(removed)@[i] == old(removed)@[i],
        forall|i: int|
            old(removed)@.len() <= i < final(removed)@.len() ==> (#[trigger] final(removed)@[i]).collection == c && doomed_keys(c, old(store).contents(c)).contains(
                final(removed)@[i].key@,
            ),
        forall|k: Seq<u8>| #[trigger]
            doomed_keys(c, old(store).contents(c)).contains(k) ==> exists|i: int|
                old(removed)@.len() <= i < final(removed)@.len() && (#[trigger] final(removed)@[i]).key@ == k,
        forall|i: int, j: int|
            old(removed)@.len() <= i < j < final(removed)@.len() ==> bytes_lt(
                (#[trigger] final(removed)@[i]).key@,
                (#[trigger] final(removed)@[j]).key@,
            ),
{
    let entries = store.entries(c);
    let ghost listing = pairs_view(entries@);
    let ghost before = store.contents(c);
    let ghost base = removed@.len();
    let ghost picked: Seq<int> = Seq::empty();
    proof {
        lemma_listing_distinct(listing, before);
    }
    let mut i: usize = 0;
    while i < entries.len()
        invariant
            i <= entries@.len(),
            store.wf(),
            c is Documents || c is UserProfiles,
            listing == pairs_view(entries@),
            is_listing_of(listing, before),
            before == old(store).contents(c),
            base == old(removed)@.len(),
            forall|a: int, b: int|
                0 <= a < listing.len() && 0 <= b < listing.len() && a != b ==> #[trigger] listing[a].0
                    != #[trigger] listing[b].0,
            forall|d: Collection|
                d != c ==> #[trigger] store.contents(d) == old(store).contents(d),
            forall|k: Seq<u8>| #[trigger]
                store.contents(c).contains_key(k) <==> before.contains_key(k) && !(exists|j: int|
                    0 <= j < i && #[trigger] listing[j].0 == k && doomed(c, listing[j].1)),
            forall|k: Seq<u8>| #[trigger]
                store.contents(c).contains_key(k) ==> store.contents(c)[k] == before[k],
            removed@.len() == base + picked.len(),
            forall|j: int| 0 <= j < base ==> removed@[j] == old(removed)@[j],
            forall|p: int|
                0 <= p < picked.len() ==> 0 <= #[trigger] picked[p] < i && doomed(
                    c,
                    listing[picked[p]].1,
                ) && removed@[base + p].collection == c && removed@[base + p].key@
                    == listing[picked[p]].0,
            forall|p: int, q: int| 0 <= p < q < picked.len() ==> picked[p] < picked[q],
            forall|j: int|
                0 <= j < i && doomed(c, (#[trigger] listing[j]).1) ==> exists|p: int|
                    0 <= p < picked.len() && #[trigger] picked[p] == j,
        decreases entries@.len() - i,
    {
        let entry = &entries[i];
        proof {
            assert(listing[i as int] == (entry.0@, entry.1@));
            assert(before.contains_key(listing[i as int].0));
        }
        let drop = match c {
            Collection::Documents => {
                let document = decode_document(entry.1.as_slice());
                document.file_data.len() == 0
            },
            _ => {
                let profile = decode_user_profile(entry.1.as_slice());
                is_anonymous(&profile.internet_identity)
            },
        };
        assert(drop == doomed(c, listing[i as int].1));
        if drop {
            let ghost earlier = store.contents(c);
            let ghost named = removed@;
            store.remove_raw(c, &entry.0);
            removed.push(RemovedKey { collection: c, key: slice_to_vec(entry.0.as_slice()) });
            proof {
                let prior = picked;
                picked = picked.push(i as int);
                assert forall|p: int| 0 <= p < picked.len() implies 0 <= #[trigger] picked[p] < i + 1
                    && doomed(c, listing[picked[p]].1) && removed@[base + p].collection == c
                    && removed@[base + p].key@ == listing[picked[p]].0 by {
                    if p < prior.len() {
                        assert(picked[p] == prior[p]);
                        assert(removed@[base + p] == named[base + p]);
                    }
                }
                assert forall|p: int, q: int| 0 <= p < q < picked.len() implies picked[p]
                    < picked[q] by {
                    assert(picked[p] == prior[p]);
                    if q < prior.len() {
                        assert(picked[q] == prior[q]);
                    }
                }
                assert forall|k: Seq<u8>| #[trigger]
                    store.contents(c).contains_key(k) <==> before.contains_key(k) && !(exists|
                        j: int,
                    |
                        0 <= j < i + 1 && #[trigger] listing[j].0 == k && doomed(c, listing[j].1)) by {
                    if k == listing[i as int].0 {
                    } else if earlier.contains_key(k) {
                        if exists|j: int|
                            0 <= j < i + 1 && #[trigger] listing[j].0 == k && doomed(
                                c,
                                listing[j].1,
                            ) {
                            let j = choose|j: int|
                                0 <= j < i + 1 && #[trigger] listing[j].0 == k && doomed(
                                    c,
                                    listing[j].1,
                                );
                            assert(j < i);
                        }
                    } else {
                        if before.contains_key(k) {
                            let j = choose|j: int|
                                0 <= j < i && #[trigger] listing[j].0 == k && doomed(
                                    c,
                                    listing[j].1,
                                );
                            assert(0 <= j < i + 1);
                        }
                    }
                }
                assert forall|j: int|
                    0 <= j < i + 1 && doomed(c, (#[trigger] listing[j]).1) implies exists|p: int|
                    0 <= p < picked.len() && #[trigger] picked[p] == j by {
                    if j == i {
                        assert(picked[picked.len() - 1] == j);
                    } else {
                        let p = choose|p: int| 0 <= p < prior.len() && #[trigger] prior[p] == j;
                        assert(picked[p] == prior[p]);
                    }
                }
            }
        } else {
            proof {
                assert forall|k: Seq<u8>| #[trigger]
                    store.contents(c).contains_key(k) <==> before.contains_key(k) && !(exists|
                        j: int,
                    |
                        0 <= j < i + 1 && #[trigger] listing[j].0 == k && doomed(c, listing[j].1)) by {
                    if store.contents(c).contains_key(k) {
                        if exists|j: int|
                            0 <= j < i + 1 && #[trigger] listing[j].0 == k && doomed(
                                c,
                                listing[j].1,
                            ) {
                            let j = choose|j: int|
                                0 <= j < i + 1 && #[trigger] listing[j].0 == k && doomed(
                                    c,
                                    listing[j].1,
                                );
                            assert(j < i);
                        }
                    } else if before.contains_key(k) {
                        let j = choose|j: int|
                            0 <= j < i && #[trigger] listing[j].0 == k && doomed(c, listing[j].1);
                        assert(0 <= j < i + 1);
                    }
                }
            }
        }
        i += 1;
    }
    proof {
        let after = store.contents(c);
        let target = cleaned(c, before);
        assert forall|k: Seq<u8>| after.contains_key(k) == target.contains_key(k) by {
            if before.contains_key(k) {
                let j = choose|j: int| 0 <= j < listing.len() && #[trigger] listing[j].0 == k;
                assert(listing[j].1 == before[k]);
                if doomed(c, before[k]) {
                    assert(0 <= j < i && listing[j].0 == k && doomed(c, listing[j].1));
                } else {
                    if exists|x: int|
                        0 <= x < i && #[trigger] listing[x].0 == k && doomed(c, listing[x].1) {
                        let x = choose|x: int|
                            0 <= x < i && #[trigger] listing[x].0 == k && doomed(c, listing[x].1);
                        assert(x == j);
                    }
                }
            }
        }
        assert(after =~= target);
        assert forall|k: Seq<u8>| #[trigger]
            doomed_keys(c, before).contains(k) implies exists|x: int|
            base <= x < removed@.len() && (#[trigger] removed@[x]).key@ == k by {
            let j = choose|j: int| 0 <= j < listing.len() && #[trigger] listing[j].0 == k;
            assert(listing[j].1 == before[k]);
            assert(doomed(c, listing[j].1));
            let p = choose|p: int| 0 <= p < picked.len() && #[trigger] picked[p] == j;
            assert(removed@[base + p].key@ == k);
        }
        assert forall|x: int| base <= x < removed@.len() implies (#[trigger] removed@[x]).collection
            == c && doomed_keys(c, before).contains(removed@[x].key@) by {
            let p = x - base;
            assert(0 <= picked[p] < i);
            assert(before.contains_key(listing[picked[p]].0));
        }
        assert forall|x: int, y: int| base <= x < y < removed@.len() implies bytes_lt(
            (#[trigger] removed@[x]).key@,
            (#[trigger] removed@[y]).key@,
        ) by {
            let p = x - base;
            let q = y - base;
            assert(picked[p] < picked[q]);
            assert(0 <= picked[p] < i && 0 <= picked[q] < i);
            assert(bytes_lt(listing[picked[p]].0, listing[picked[q]].0));
        }
    }
}

/// Removes every document that has no file or is the empty document, and
/// every user profile with the anonymous identity. The other collections are
/// left alone. The report names each removed record once.
pub fn run_cleanup(store: &mut Store) -> (report: CleanupReport)
    requires
        old(store).wf(),
    ensures
        final(store).wf(),
        forall|c: Collection| #[trigger]
            final(store).contents(c) == cleaned(c, old(store).contents(c)),
        report.count_removed == report.removed_keys@.len(),
        report.ordered(),
        report.distinct(),
        forall|c: Collection, k: Seq<u8>| #[trigger]
            report.names(c, k) <==> doomed_keys(c, old(store).contents(c)).contains(k),
{
    let mut removed: Vec<RemovedKey> = Vec::new();
    let ghost before = *store;
    clean_collection(store, Collection::Documents, &mut removed);
    let ghost middle = removed@.len();
    clean_collection(store, Collection::UserProfiles, &mut removed);
    let count: u64 = removed.len() as u64;
    let report = CleanupReport { count_removed: count, removed_keys: removed };
    proof {
        assert forall|c: Collection| #[trigger]
            store.contents(c) == cleaned(c, before.contents(c)) by {
            if !(c is Documents) && !(c is UserProfiles) {
                assert(doomed_keys(c, before.contents(c)) =~= Set::<Seq<u8>>::empty());
                assert(cleaned(c, before.contents(c)) =~= before.contents(c));
            }
        }
        assert forall|c: Collection, k: Seq<u8>| #[trigger]
            report.names(c, k) <==> doomed_keys(c, before.contents(c)).contains(k) by {
            if report.names(c, k) {
                let i = choose|i: int|
                    0 <= i < report.removed_keys@.len() && (#[trigger] report.removed_keys@[i]).collection
                        == c && report.removed_keys@[i].key@ == k;
                if i < middle {
                    assert(c is Documents);
                } else {
                    assert(c is UserProfiles);
                }
            }
            if doomed_keys(c, before.contents(c)).contains(k) {
                if c is Documents {
                    let i = choose|i: int|
                        0 <= i < middle && (#[trigger] report.removed_keys@[i]).key@ == k;
                    assert(report.removed_keys@[i].collection == c);
                } else {
                    assert(c is UserProfiles);
                    let i = choose|i: int|
                        middle <= i < report.removed_keys@.len() && (#[trigger] report.removed_keys@[i]).key@
                            == k;
                    assert(report.removed_keys@[i].collection == c);
                }
            }
        }
        assert(report.ordered()) by {
            assert forall|i: int, j: int|
                0 <= i < j < report.removed_keys@.len() implies ((#[trigger] report.removed_keys@[i]).collection
                is Documents && (#[trigger] report.removed_keys@[j]).collection is UserProfiles)
                || (report.removed_keys@[i].collection == report.removed_keys@[j].collection
                && bytes_lt(report.removed_keys@[i].key@, report.removed_keys@[j].key@)) by {
                if i < middle {
                    assert(report.removed_keys@[i].collection is Documents);
                } else {
                    assert(report.removed_keys@[i].collection is UserProfiles);
                }
                if j < middle {
                    assert(report.removed_keys@[j].collection is Documents);
                } else {
                    assert(report.removed_keys@[j].collection is UserProfiles);
                }
            }
        }
        assert(report.distinct()) by {
            assert forall|i: int, j: int|
                0 <= i < j < report.removed_keys@.len() implies !((#[trigger] report.removed_keys@[i]).collection
                == (#[trigger] report.removed_keys@[j]).collection && report.removed_keys@[i].key@
                == report.removed_keys@[j].key@) by {
                crate::typed_map::lemma_bytes_lt_irreflexive(report.removed_keys@[i].key@);
            }
        }
    }
    report
}

/// Idempotence of the cleaner: in what a run leaves, nothing is marked for
/// removal, so a second run removes nothing and changes nothing.
pub proof fn law_cleanup_idempotent(c: Collection, contents: Map<Seq<u8>, Seq<u8>>)
    ensures
        doomed_keys(c, cleaned(c, contents)) == Set::<Seq<u8>>::empty(),
        cleaned(c, cleaned(c, contents)) == cleaned(c, contents),
{
    let once = cleaned(c, contents);
    assert(doomed_keys(c, once) =~= Set::<Seq<u8>>::empty());
    assert(cleaned(c, once) =~= once);
}

} // verus!
