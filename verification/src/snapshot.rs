//! The snapshot: a linear byte format that carries every collection across a
//! replacement of the running program.
//!
//! Layout, little-endian throughout: six 64-bit counts, one per collection in
//! segment order, then for each collection in the same order its pairs, each
//! as a 32-bit key length, the key, a 32-bit value length, the value.

use crate::store::{Collection, Store, COLLECTION_COUNT};
use crate::text::bytes_are_text;
use crate::typed_map::{
    is_listing_of, pairs_view, within_limits, MAX_ENTRY_BYTES,
};
use crate::wire::{
    get_run, get_u32, get_u64, put_run, put_u32, put_u64, read_run, read_u32, read_u64, u32_bytes,
    u64_bytes,
};
use vstd::prelude::*;
use vstd::utf8::*;

verus! {

/// Bytes taken by the six counts at the head of a snapshot.
pub const HEADER_BYTES: usize = 48;

/// The bytes of one pair.
pub open spec fn pair_bytes(key: Seq<u8>, value: Seq<u8>) -> Seq<u8> {
    u32_bytes(key.len() as u32) + key + u32_bytes(value.len() as u32) + value
}

/// The bytes of a run of pairs, in order.
pub open spec fn pairs_bytes(pairs: Seq<(Seq<u8>, Seq<u8>)>) -> Seq<u8>
    decreases pairs.len(),
{
    if pairs.len() == 0 {
        Seq::empty()
    } else {
        pairs_bytes(pairs.drop_last()) + pair_bytes(pairs.last().0, pairs.last().1)
    }
}

/// The counts of the listings, eight bytes each, in order.
pub open spec fn counts_bytes(listings: Seq<Seq<(Seq<u8>, Seq<u8>)>>) -> Seq<u8>
    decreases listings.len(),
{
    if listings.len() == 0 {
        Seq::empty()
    } else {
        counts_bytes(listings.drop_last()) + u64_bytes(listings.last().len() as u64)
    }
}

/// The pairs of the listings, one listing after the other.
pub open spec fn bodies_bytes(listings: Seq<Seq<(Seq<u8>, Seq<u8>)>>) -> Seq<u8>
    decreases listings.len(),
{
    if listings.len() == 0 {
        Seq::empty()
    } else {
        bodies_bytes(listings.drop_last()) + pairs_bytes(listings.last())
    }
}

/// The snapshot of six listings: all counts, then all pairs.
pub open spec fn snapshot_bytes(listings: Seq<Seq<(Seq<u8>, Seq<u8>)>>) -> Seq<u8> {
    counts_bytes(listings) + bodies_bytes(listings)
}

/// `listings` holds, in segment order, a sorted listing of each collection.
pub open spec fn lists_store(listings: Seq<Seq<(Seq<u8>, Seq<u8>)>>, store: Store) -> bool {
    &&& listings.len() == COLLECTION_COUNT
    &&& forall|i: int|
        0 <= i < COLLECTION_COUNT ==> is_listing_of(
            #[trigger] listings[i],
            store.contents(Collection::at(i)),
        )
}

/// `bytes` is the snapshot of the store: of each collection's pairs in
/// ascending key order.
pub open spec fn is_snapshot_of(bytes: Seq<u8>, store: Store) -> bool {
    exists|listings: Seq<Seq<(Seq<u8>, Seq<u8>)>>| #[trigger]
        lists_store(listings, store) && bytes == snapshot_bytes(listings)
}

/// The views of a list of listings.
pub open spec fn listings_view(listings: Seq<Vec<(Vec<u8>, Vec<u8>)>>) -> Seq<
    Seq<(Seq<u8>, Seq<u8>)>,
> {
    Seq::new(listings.len(), |i: int| pairs_view(listings[i]@))
}

/// Serializes all six collections of the store.
pub fn write_snapshot(store: &Store) -> (bytes: Vec<u8>)
    requires
        store.wf(),
    ensures
        is_snapshot_of(bytes@, *store),
{
    let mut listings: Vec<Vec<(Vec<u8>, Vec<u8>)>> = Vec::new();
    let mut id: u8 = 0;
    while id < 6
        invariant
            id <= 6,
            listings@.len() == id,
            store.wf(),
            forall|i: int|
                0 <= i < id ==> is_listing_of(
                    pairs_view(#[trigger] listings@[i]@),
                    store.contents(Collection::at(i)),
                ),
        decreases 6 - id,
    {
        let collection = Collection::from_segment_id(id).unwrap();
        let listing = store.entries(collection);
        listings.push(listing);
        id += 1;
    }
    let ghost shape = listings_view(listings@);
    assert(lists_store(shape, *store));
    let mut out: Vec<u8> = Vec::new();
    let mut i: usize = 0;
    while i < 6
        invariant
            i <= 6,
            listings@.len() == 6,
            shape == listings_view(listings@),
            out@ == counts_bytes(shape.take(i as int)),
        decreases 6 - i,
    {
        let count: u64 = listings[i].len() as u64;
        put_u64(&mut out, count);
        proof {
            assert(shape.take(i + 1).drop_last() =~= shape.take(i as int));
            assert(shape.take(i + 1).last() == shape[i as int]);
        }
        i += 1;
    }
    assert(shape.take(6) =~= shape);
    let ghost head = out@;
    i = 0;
    while i < 6
        invariant
            i <= 6,
            listings@.len() == 6,
            shape == listings_view(listings@),
            lists_store(shape, *store),
            store.wf(),
            out@ == head + bodies_bytes(shape.take(i as int)),
        decreases 6 - i,
    {
        let ghost start = out@;
        let ghost pairs = shape[i as int];
        let mut j: usize = 0;
        proof {
            assert(is_listing_of(shape[i as int], store.contents(Collection::at(i as int))));
            assert(crate::store::collection_ok(
                store.contents(Collection::at(i as int)),
                Collection::at(i as int),
            ));
        }
        while j < listings[i].len()
            invariant
                i < 6,
                listings@.len() == 6,
                pairs == pairs_view(listings@[i as int]@),
                j <= listings@[i as int]@.len(),
                is_listing_of(pairs, store.contents(Collection::at(i as int))),
                within_limits(store.contents(Collection::at(i as int))),
                out@ == start + pairs_bytes(pairs.take(j as int)),
            decreases listings@[i as int]@.len() - j,
        {
            let pair = &listings[i][j];
            proof {
                assert(pairs[j as int].0 == pair.0@ && pairs[j as int].1 == pair.1@);
                assert(store.contents(Collection::at(i as int)).contains_key(pairs[j as int].0));
                assert(pairs.take(j + 1).drop_last() =~= pairs.take(j as int));
                assert(pairs.take(j + 1).last() == pairs[j as int]);
            }
            let key_len: u32 = pair.0.len() as u32;
            let value_len: u32 = pair.1.len() as u32;
            put_u32(&mut out, key_len);
            put_run(&mut out, pair.0.as_slice());
            put_u32(&mut out, value_len);
            put_run(&mut out, pair.1.as_slice());
            assert(out@ =~= start + (pairs_bytes(pairs.take(j as int)) + pair_bytes(
                pair.0@,
                pair.1@,
            )));
            j += 1;
        }
        proof {
            assert(pairs.take(j as int) =~= pairs);
            assert(shape.take(i + 1).drop_last() =~= shape.take(i as int));
            assert(shape.take(i + 1).last() == shape[i as int]);
            assert(out@ =~= head + (bodies_bytes(shape.take(i as int)) + pairs_bytes(pairs)));
        }
        i += 1;
    }
    assert(shape.take(6) =~= shape);
    out
}

/// The pair that starts at `pos` and the place after it, if a whole pair is
/// there.
pub open spec fn read_pair(bytes: Seq<u8>, pos: int) -> Option<(Seq<u8>, Seq<u8>, int)> {
    match read_u32(bytes, pos) {
        None => None,
        Some(key_len) => match read_run(bytes, pos + 4, key_len as int) {
            None => None,
            Some(key) => match read_u32(bytes, pos + 4 + key_len) {
                None => None,
                Some(value_len) => match read_run(bytes, pos + 8 + key_len, value_len as int) {
                    None => None,
                    Some(value) => Some((key, value, pos + 8 + key_len + value_len)),
                },
            },
        },
    }
}

/// Where the restoring of one collection stands.
pub ghost struct Progress {
    /// The collection's contents so far.
    pub contents: Map<Seq<u8>, Seq<u8>>,
    /// The place of the next unread byte.
    pub next: int,
    /// Whether every pair asked for so far was there.
    pub complete: bool,
    /// How many pairs were stored.
    pub stored: nat,
}

/// Reads `count` pairs from `start` into `into`. A pair whose key is not text,
/// in a text-keyed collection, is passed over; at the first pair that is not
/// wholly there the reading stops.
pub open spec fn restore_pairs(
    bytes: Seq<u8>,
    start: int,
    count: nat,
    text: bool,
    into: Map<Seq<u8>, Seq<u8>>,
) -> Progress
    decreases count,
{
    if count == 0 {
        Progress { contents: into, next: start, complete: true, stored: 0 }
    } else {
        let prev = restore_pairs(bytes, start, (count - 1) as nat, text, into);
        if !prev.complete {
            prev
        } else {
            match read_pair(bytes, prev.next) {
                None => Progress { complete: false, ..prev },
                Some((key, value, next)) => if text && !valid_utf8(key) {
                    Progress { next: next, ..prev }
                } else {
                    Progress {
                        contents: prev.contents.insert(key, value),
                        next: next,
                        complete: true,
                        stored: prev.stored + 1,
                    }
                },
            }
        }
    }
}

/// Where the restoring of the store stands.
pub ghost struct Restore {
    /// The contents of the six collections so far.
    pub collections: Seq<Map<Seq<u8>, Seq<u8>>>,
    /// The place of the next unread byte.
    pub next: int,
    /// Whether every pair asked for so far was there.
    pub complete: bool,
    /// How many pairs were stored.
    pub stored: nat,
}

/// The count that the header gives for collection `index`.
pub open spec fn count_at(bytes: Seq<u8>, index: int) -> nat {
    match read_u64(bytes, 8 * index) {
        Some(count) => count as nat,
        None => 0,
    }
}

/// Restores the first `upto` collections from a snapshot with a whole header.
/// Once a collection's pairs are cut short, the later collections stay as they
/// were.
pub open spec fn restore_collections(
    bytes: Seq<u8>,
    upto: nat,
    before: Seq<Map<Seq<u8>, Seq<u8>>>,
) -> Restore
    decreases upto,
{
    if upto == 0 {
        Restore { collections: before, next: HEADER_BYTES as int, complete: true, stored: 0 }
    } else {
        let prev = restore_collections(bytes, (upto - 1) as nat, before);
        if !prev.complete {
            prev
        } else {
            let index = upto - 1;
            let progress = restore_pairs(
                bytes,
                prev.next,
                count_at(bytes, index),
                Collection::at(index).text_keyed(),
                prev.collections[index],
            );
            Restore {
                collections: prev.collections.update(index, progress.contents),
                next: progress.next,
                complete: progress.complete,
                stored: prev.stored + progress.stored,
            }
        }
    }
}

/// What reading `bytes` makes of the collections `before`. Bytes too short to
/// hold the six counts restore nothing.
pub open spec fn restored(bytes: Seq<u8>, before: Seq<Map<Seq<u8>, Seq<u8>>>) -> Restore {
    if bytes.len() < HEADER_BYTES {
        Restore { collections: before, next: 0, complete: false, stored: 0 }
    } else {
        restore_collections(bytes, COLLECTION_COUNT as nat, before)
    }
}

/// What a reading of a snapshot did.
#[derive(Clone, Copy, Debug, PartialEq, Eq, Structural)]
pub struct RestoreReport {
    /// How many pairs were stored.
    pub stored: u64,
    /// Whether all six collections were read to their counts.
    pub complete: bool,
}

/// Once a pair was missing, asking for more pairs changes nothing.
pub proof fn lemma_restore_pairs_stops(
    bytes: Seq<u8>,
    start: int,
    reached: nat,
    count: nat,
    text: bool,
    into: Map<Seq<u8>, Seq<u8>>,
)
    requires
        reached <= count,
        !restore_pairs(bytes, start, reached, text, into).complete,
    ensures
        restore_pairs(bytes, start, count, text, into) == restore_pairs(
            bytes,
            start,
            reached,
            text,
            into,
        ),
    decreases count,
{
    if reached < count {
        lemma_restore_pairs_stops(bytes, start, reached, (count - 1) as nat, text, into);
    }
}

/// Once a collection was cut short, the later collections change nothing.
pub proof fn lemma_restore_collections_stops(
    bytes: Seq<u8>,
    reached: nat,
    upto: nat,
    before: Seq<Map<Seq<u8>, Seq<u8>>>,
)
    requires
        reached <= upto,
        !restore_collections(bytes, reached, before).complete,
    ensures
        restore_collections(bytes, upto, before) == restore_collections(bytes, reached, before),
    decreases upto,
{
    if reached < upto {
        lemma_restore_collections_stops(bytes, reached, (upto - 1) as nat, before);
    }
}

/// Reads a snapshot into the store. Never fails: bytes that are absent or cut
/// short restore what is wholly there, and a pair whose key is not text where
/// text is required is passed over.
pub fn read_snapshot(store: &mut Store, bytes: &[u8]) -> (report: RestoreReport)
    requires
        old(store).wf(),
    ensures
        final(store).wf(),
        final(store).all_contents() == restored(bytes@, old(store).all_contents()).collections,
        report.stored == restored(bytes@, old(store).all_contents()).stored,
        report.complete == restored(bytes@, old(store).all_contents()).complete,
{
    let ghost before = store.all_contents();
    if bytes.len() < HEADER_BYTES {
        return RestoreReport { stored: 0, complete: false };
    }
    let mut pos: usize = HEADER_BYTES;
    let mut stored: u64 = 0;
    let mut id: u8 = 0;
    while id < 6
        invariant
            id <= 6,
            bytes@.len() >= HEADER_BYTES,
            store.wf(),
            before.len() == 6,
            before == old(store).all_contents(),
            restore_collections(bytes@, id as nat, before) == (Restore {
                collections: store.all_contents(),
                next: pos as int,
                complete: true,
                stored: stored as nat,
            }),
            stored <= pos <= bytes@.len(),
        decreases 6 - id,
    {
        let collection = Collection::from_segment_id(id).unwrap();
        let text = collection.has_text_keys();
        let count: u64 = match get_u64(bytes, 8 * (id as usize)) {
            Some(count) => count,
            None => 0,
        };
        let ghost start = pos as int;
        let ghost into = store.contents(collection);
        let ghost others = store.all_contents();
        let ghost stored_before = stored as nat;
        let mut done: u64 = 0;
        assert(others[id as int] == into);
        while done < count
            invariant
                done <= count,
                id < 6,
                collection == Collection::at(id as int),
                text == collection.text_keyed(),
                store.wf(),
                bytes@.len() >= HEADER_BYTES,
                before.len() == 6,
                before == old(store).all_contents(),
                others.len() == 6,
                restore_collections(bytes@, id as nat, before) == (Restore {
                    collections: others,
                    next: start,
                    complete: true,
                    stored: stored_before,
                }),
                count == count_at(bytes@, id as int),
                into == others[id as int],
                store.all_contents() == others.update(id as int, store.contents(collection)),
                restore_pairs(bytes@, start, done as nat, text, into) == (Progress {
                    contents: store.contents(collection),
                    next: pos as int,
                    complete: true,
                    stored: (stored - stored_before) as nat,
                }),
                stored_before <= stored <= pos <= bytes@.len(),
            decreases count - done,
        {
            let ghost progress = restore_pairs(bytes@, start, done as nat, text, into);
            let pair = take_pair(bytes, pos);
            match pair {
                None => {
                    proof {
                        let halted = restore_pairs(bytes@, start, (done + 1) as nat, text, into);
                        assert(!halted.complete);
                        lemma_restore_pairs_stops(
                            bytes@,
                            start,
                            (done + 1) as nat,
                            count as nat,
                            text,
                            into,
                        );
                        let last = restore_collections(bytes@, (id + 1) as nat, before);
                        assert(!last.complete);
                        lemma_restore_collections_stops(bytes@, (id + 1) as nat, 6, before);
                        assert(last.collections =~= store.all_contents());
                    }
                    return RestoreReport { stored, complete: false };
                },
                Some((key, value, next)) => {
                    if text && !bytes_are_text(key.as_slice()) {
                        pos = next;
                    } else {
                        let ghost earlier = store.all_contents();
                        store.put_raw(collection, key, value);
                        pos = next;
                        stored += 1;
                        proof {
                            assert(store.all_contents() =~= others.update(
                                id as int,
                                store.contents(collection),
                            )) by {
                                assert forall|i: int| 0 <= i < 6 implies store.all_contents()[i]
                                    == others.update(id as int, store.contents(collection))[i] by {
                                    if i != id {
                                        assert(Collection::at(i) != collection);
                                        assert(earlier[i] == others[i]);
                                    }
                                }
                            }
                        }
                    }
                    done += 1;
                },
            }
        }
        id += 1;
    }
    RestoreReport { stored, complete: true }
}

/// Reads the pair that starts at `pos`.
pub fn take_pair(bytes: &[u8], pos: usize) -> (pair: Option<(Vec<u8>, Vec<u8>, usize)>)
    ensures
        match pair {
            Some((key, value, next)) => read_pair(bytes@, pos as int) == Some(
                (key@, value@, next as int),
            ) && pos + 8 <= next <= bytes@.len() && key@.len() <= MAX_ENTRY_BYTES && value@.len()
                <= MAX_ENTRY_BYTES,
            None => read_pair(bytes@, pos as int).is_none(),
        },
{
    let total = bytes.len();
    let key_len = match get_u32(bytes, pos) {
        Some(len) => len,
        None => { return None; },
    };
    assert(pos + 4 <= total);
    let key = match get_run(bytes, pos + 4, key_len as usize) {
        Some(key) => key,
        None => { return None; },
    };
    assert(pos + 4 + key_len <= total);
    let value_at: usize = pos + 4 + key_len as usize;
    let value_len = match get_u32(bytes, value_at) {
        Some(len) => len,
        None => { return None; },
    };
    let value = match get_run(bytes, value_at + 4, value_len as usize) {
        Some(value) => value,
        None => { return None; },
    };
    Some((key, value, value_at + 4 + value_len as usize))
}

} // verus!
