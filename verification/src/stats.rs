//! Storage statistics and the anomaly rules evaluated over them.

use crate::codec::{decode_document, decode_document_spec};
use crate::logging::LogSeverity;
use crate::store::{Collection, Store};
use crate::typed_map::{is_listing_of, lemma_listing_unique, pairs_view};
use vstd::prelude::*;

verus! {

/// Counts of the three primary collections and the size of all stored files.
#[derive(Debug, Clone, Copy, PartialEq, Eq, Structural)]
pub struct StorageStats {
    pub document_count: u64,
    pub institution_count: u64,
    pub user_profile_count: u64,
    pub total_file_size_bytes: u64,
}

/// The summed file sizes of the listed documents.
pub open spec fn payload_bytes(listing: Seq<(Seq<u8>, Seq<u8>)>) -> nat
    decreases listing.len(),
{
    if listing.len() == 0 {
        0
    } else {
        payload_bytes(listing.drop_last()) + decode_document_spec(listing.last().1).file_data.len()
    }
}

/// `n`, or the largest 64-bit number if `n` is larger.
pub open spec fn capped(n: nat) -> u64 {
    if n <= u64::MAX {
        n as u64
    } else {
        u64::MAX
    }
}

/// Computes the statistics: one pass over the documents for their count and
/// summed file size, and the sizes of the other two collections. A sum that
/// does not fit 64 bits is reported as the largest 64-bit number.
pub fn get_storage_stats(store: &Store) -> (stats: StorageStats)
    requires
        store.wf(),
    ensures
        stats.document_count == store.contents(Collection::Documents).dom().len(),
        stats.institution_count == store.contents(Collection::Institutions).dom().len(),
        stats.user_profile_count == store.contents(Collection::UserProfiles).dom().len(),
        exists|listing: Seq<(Seq<u8>, Seq<u8>)>| #[trigger]
            is_listing_of(listing, store.contents(Collection::Documents))
                && stats.total_file_size_bytes == capped(payload_bytes(listing)),
{
    let institution_count = store.count(Collection::Institutions);
    let user_profile_count = store.count(Collection::UserProfiles);
    let entries = store.entries(Collection::Documents);
    let ghost listing = pairs_view(entries@);
    let mut count: u64 = 0;
    let mut total: u64 = 0;
    let mut i: usize = 0;
    while i < entries.len()
        invariant
            i <= entries@.len(),
            listing == pairs_view(entries@),
            count == i,
            total == capped(payload_bytes(listing.take(i as int))),
        decreases entries@.len() - i,
    {
        let document = decode_document(entries[i].1.as_slice());
        let size: u64 = document.file_data.len() as u64;
        proof {
            assert(listing.take(i + 1).drop_last() =~= listing.take(i as int));
            assert(listing.take(i + 1).last() == listing[i as int]);
            assert(listing[i as int].1 == entries@[i as int].1@);
        }
        if size > u64::MAX - total {
            total = u64::MAX;
        } else {
            total = total + size;
        }
        count = count + 1;
        i += 1;
    }
    assert(listing.take(i as int) =~= listing);
    StorageStats {
        document_count: count,
        institution_count,
        user_profile_count,
        total_file_size_bytes: total,
    }
}

/// Whether the three primary collections are all empty.
pub fn is_storage_empty(store: &Store) -> (empty: bool)
    requires
        store.wf(),
    ensures
        empty == (store.contents(Collection::Documents).dom().len() == 0 && store.contents(
            Collection::Institutions,
        ).dom().len() == 0 && store.contents(Collection::UserProfiles).dom().len() == 0),
{
    let stats = get_storage_stats(store);
    stats.document_count == 0 && stats.institution_count == 0 && stats.user_profile_count == 0
}

/// A suspicious state of the store.
#[derive(Debug, Clone, Copy, PartialEq, Eq, Structural)]
pub enum Anomaly {
    /// All three primary collections are empty.
    PotentialFullWipe,
    /// One primary collection is empty while another is not.
    PotentialPartialWipe,
    /// An owner's token list names a document that does not exist.
    ReferentialAnomaly,
}

/// All three counts are zero.
pub open spec fn full_wipe(stats: StorageStats) -> bool {
    stats.document_count == 0 && stats.institution_count == 0 && stats.user_profile_count == 0
}

/// Some count is zero while another is not.
pub open spec fn partial_wipe(stats: StorageStats) -> bool {
    (stats.document_count == 0 || stats.institution_count == 0 || stats.user_profile_count == 0)
        && !full_wipe(stats)
}

/// The anomalies that the rules find, in the order of the rules.
pub open spec fn anomalies_spec(stats: StorageStats, orphaned: u64) -> Seq<Anomaly> {
    (if full_wipe(stats) {
        seq![Anomaly::PotentialFullWipe]
    } else {
        Seq::empty()
    }) + (if partial_wipe(stats) {
        seq![Anomaly::PotentialPartialWipe]
    } else {
        Seq::empty()
    }) + (if orphaned > 0 {
        seq![Anomaly::ReferentialAnomaly]
    } else {
        Seq::empty()
    })
}

/// Evaluates the anomaly rules over the statistics and the number of orphaned
/// token list entries.
pub fn detect_anomalies(stats: &StorageStats, orphaned: u64) -> (found: Vec<Anomaly>)
    ensures
        found@ == anomalies_spec(*stats, orphaned),
{
    let mut found: Vec<Anomaly> = Vec::new();
    let all_zero = stats.document_count == 0 && stats.institution_count == 0
        && stats.user_profile_count == 0;
    let some_zero = stats.document_count == 0 || stats.institution_count == 0
        || stats.user_profile_count == 0;
    if all_zero {
        found.push(Anomaly::PotentialFullWipe);
    }
    if some_zero && !all_zero {
        found.push(Anomaly::PotentialPartialWipe);
    }
    if orphaned > 0 {
        found.push(Anomaly::ReferentialAnomaly);
    }
    assert(found@ =~= anomalies_spec(*stats, orphaned));
    found
}

/// How grave an anomaly is: a full wipe is critical, the others are warnings.
pub fn anomaly_severity(anomaly: Anomaly) -> (severity: LogSeverity)
    ensures
        severity == (if anomaly == Anomaly::PotentialFullWipe {
            LogSeverity::Critical
        } else {
            LogSeverity::Warning
        }),
{
    match anomaly {
        Anomaly::PotentialFullWipe => LogSeverity::Critical,
        _ => LogSeverity::Warning,
    }
}

/// Wipe detection. With all three counts zero the rules report a full wipe
/// and no partial wipe; with one count zero and another not, a partial wipe
/// and no full wipe; with no count zero, neither.
pub proof fn law_wipe_detection(stats: StorageStats, orphaned: u64)
    ensures
        anomalies_spec(stats, orphaned).contains(Anomaly::PotentialFullWipe) == full_wipe(stats),
        anomalies_spec(stats, orphaned).contains(Anomaly::PotentialPartialWipe) == partial_wipe(
            stats,
        ),
        anomalies_spec(stats, orphaned).contains(Anomaly::ReferentialAnomaly) == (orphaned > 0),
        !(full_wipe(stats) && partial_wipe(stats)),
{
    let found = anomalies_spec(stats, orphaned);
    let a = if full_wipe(stats) {
        seq![Anomaly::PotentialFullWipe]
    } else {
        Seq::empty()
    };
    let b = if partial_wipe(stats) {
        seq![Anomaly::PotentialPartialWipe]
    } else {
        Seq::empty()
    };
    let c = if orphaned > 0 {
        seq![Anomaly::ReferentialAnomaly]
    } else {
        Seq::empty()
    };
    assert(found == a + b + c);
    if full_wipe(stats) {
        assert(found[0] == Anomaly::PotentialFullWipe);
    }
    if partial_wipe(stats) {
        assert(found[a.len() as int] == Anomaly::PotentialPartialWipe);
    }
    if orphaned > 0 {
        assert(found[(a.len() + b.len()) as int] == Anomaly::ReferentialAnomaly);
    }
}

/// The summed file size does not depend on which listing of the documents is
/// walked: there is one only.
pub proof fn law_payload_unique(
    documents: Map<Seq<u8>, Seq<u8>>,
    first: Seq<(Seq<u8>, Seq<u8>)>,
    second: Seq<(Seq<u8>, Seq<u8>)>,
)
    requires
        documents.dom().finite(),
        is_listing_of(first, documents),
        is_listing_of(second, documents),
    ensures
        payload_bytes(first) == payload_bytes(second),
{
    lemma_listing_unique(first, second, documents);
}

} // verus!
