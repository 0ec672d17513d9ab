//! What holds of writing a snapshot and reading it back.

use crate::snapshot::{
    bodies_bytes, count_at, counts_bytes, is_snapshot_of, lists_store, pair_bytes, pairs_bytes,
    read_pair, restore_collections, restore_pairs, restored, snapshot_bytes, Progress, HEADER_BYTES,
};
use crate::store::{collection_ok, Collection, Store, COLLECTION_COUNT};
use crate::typed_map::{
    is_listing_of, lemma_listing_distinct, lemma_listing_length, lemma_listing_unique,
    no_entries, MAX_ENTRY_BYTES,
};
use crate::wire::{read_run, read_u32, u32_bytes, u64_bytes};
use vstd::bytes::*;
use vstd::prelude::*;
use vstd::utf8::*;

verus! {

/// `part` stands in `bytes` at `pos`.
pub open spec fn holds_at(bytes: Seq<u8>, pos: int, part: Seq<u8>) -> bool {
    0 <= pos && pos + part.len() <= bytes.len() && bytes.subrange(pos, pos + part.len()) == part
}

/// The association that results from storing `pairs`, in order, into `into`.
pub open spec fn fold_insert(
    into: Map<Seq<u8>, Seq<u8>>,
    pairs: Seq<(Seq<u8>, Seq<u8>)>,
) -> Map<Seq<u8>, Seq<u8>>
    decreases pairs.len(),
{
    if pairs.len() == 0 {
        into
    } else {
        fold_insert(into, pairs.drop_last()).insert(pairs.last().0, pairs.last().1)
    }
}

/// Every pair fits the entry limit and, where `text` is asked, has a text key.
pub open spec fn pairs_fit(pairs: Seq<(Seq<u8>, Seq<u8>)>, text: bool) -> bool {
    forall|i: int|
        0 <= i < pairs.len() ==> (#[trigger] pairs[i]).0.len() <= MAX_ENTRY_BYTES && pairs[i].1.len()
            <= MAX_ENTRY_BYTES && (text ==> valid_utf8(pairs[i].0))
}

/// Six listings that a snapshot can carry in full.
pub open spec fn listings_fit(listings: Seq<Seq<(Seq<u8>, Seq<u8>)>>) -> bool {
    &&& listings.len() == COLLECTION_COUNT
    &&& forall|i: int|
        0 <= i < COLLECTION_COUNT ==> (#[trigger] listings[i]).len() <= u64::MAX && pairs_fit(
            listings[i],
            Collection::at(i).text_keyed(),
        )
}

/// Six empty collections.
pub open spec fn empty_collections() -> Seq<Map<Seq<u8>, Seq<u8>>> {
    Seq::new(COLLECTION_COUNT as nat, |i: int| no_entries())
}

/// A pair takes eight bytes more than its key and value.
pub proof fn lemma_pair_bytes_len(key: Seq<u8>, value: Seq<u8>)
    ensures
        pair_bytes(key, value).len() == 8 + key.len() + value.len(),
{
    lemma_auto_spec_u32_to_from_le_bytes();
}

/// A pair that stands at `pos` is read back from there.
pub proof fn lemma_read_pair_written(bytes: Seq<u8>, pos: int, key: Seq<u8>, value: Seq<u8>)
    requires
        holds_at(bytes, pos, pair_bytes(key, value)),
        key.len() <= MAX_ENTRY_BYTES,
        value.len() <= MAX_ENTRY_BYTES,
    ensures
        read_pair(bytes, pos) == Some((key, value, pos + 8 + key.len() + value.len())),
{
    lemma_auto_spec_u32_to_from_le_bytes();
    let key_len = u32_bytes(key.len() as u32);
    let value_len = u32_bytes(value.len() as u32);
    let whole = pair_bytes(key, value);
    let window = bytes.subrange(pos, pos + whole.len());
    assert(key_len.len() == 4 && value_len.len() == 4);
    assert(bytes.subrange(pos, pos + 4) =~= window.subrange(0, 4));
    assert(window.subrange(0, 4) =~= key_len);
    assert(read_u32(bytes, pos) == Some(key.len() as u32));
    assert(bytes.subrange(pos + 4, pos + 4 + key.len()) =~= window.subrange(
        4,
        4 + key.len() as int,
    ));
    assert(window.subrange(4, 4 + key.len() as int) =~= key);
    assert(read_run(bytes, pos + 4, key.len() as int) == Some(key));
    assert(bytes.subrange(pos + 4 + key.len(), pos + 8 + key.len()) =~= window.subrange(
        4 + key.len() as int,
        8 + key.len() as int,
    ));
    assert(window.subrange(4 + key.len() as int, 8 + key.len() as int) =~= value_len);
    assert(read_u32(bytes, pos + 4 + key.len()) == Some(value.len() as u32));
    assert(bytes.subrange(pos + 8 + key.len(), pos + 8 + key.len() + value.len())
        =~= window.subrange(8 + key.len() as int, (8 + key.len() + value.len()) as int));
    assert(window.subrange(8 + key.len() as int, (8 + key.len() + value.len()) as int) =~= value);
    assert(read_run(bytes, pos + 8 + key.len(), value.len() as int) == Some(value));
}

/// Pairs that stand at `start` are all read back and stored in order.
pub proof fn lemma_restore_pairs_written(
    bytes: Seq<u8>,
    start: int,
    pairs: Seq<(Seq<u8>, Seq<u8>)>,
    text: bool,
    into: Map<Seq<u8>, Seq<u8>>,
)
    requires
        holds_at(bytes, start, pairs_bytes(pairs)),
        pairs_fit(pairs, text),
    ensures
        restore_pairs(bytes, start, pairs.len(), text, into) == (Progress {
            contents: fold_insert(into, pairs),
            next: start + pairs_bytes(pairs).len(),
            complete: true,
            stored: pairs.len(),
        }),
    decreases pairs.len(),
{
    if pairs.len() > 0 {
        let init = pairs.drop_last();
        let last = pairs.last();
        let whole = pairs_bytes(pairs);
        let head = pairs_bytes(init);
        let tail = pair_bytes(last.0, last.1);
        let window = bytes.subrange(start, start + whole.len());
        assert(whole == head + tail);
        assert(bytes.subrange(start, start + head.len()) =~= window.subrange(0, head.len() as int));
        assert(window.subrange(0, head.len() as int) =~= head);
        assert(pairs_fit(init, text)) by {
            assert forall|i: int| 0 <= i < init.len() implies (#[trigger] init[i]).0.len()
                <= MAX_ENTRY_BYTES && init[i].1.len() <= MAX_ENTRY_BYTES && (text ==> valid_utf8(
                init[i].0,
            )) by {
                assert(init[i] == pairs[i]);
            }
        }
        lemma_restore_pairs_written(bytes, start, init, text, into);
        assert(bytes.subrange(start + head.len(), start + head.len() + tail.len())
            =~= window.subrange(head.len() as int, whole.len() as int));
        assert(window.subrange(head.len() as int, whole.len() as int) =~= tail);
        assert(pairs[pairs.len() - 1] == last);
        lemma_read_pair_written(bytes, start + head.len(), last.0, last.1);
        lemma_pair_bytes_len(last.0, last.1);
    }
}

/// The header holds one count of eight bytes for each listing.
pub proof fn lemma_counts_bytes(listings: Seq<Seq<(Seq<u8>, Seq<u8>)>>, index: int)
    requires
        0 <= index < listings.len(),
    ensures
        counts_bytes(listings).len() == 8 * listings.len(),
        counts_bytes(listings).subrange(8 * index, 8 * index + 8) == u64_bytes(
            listings[index].len() as u64,
        ),
    decreases listings.len(),
{
    lemma_auto_spec_u64_to_from_le_bytes();
    let init = listings.drop_last();
    let head = counts_bytes(init);
    let tail = u64_bytes(listings.last().len() as u64);
    lemma_counts_len(init);
    if index < init.len() {
        lemma_counts_bytes(init, index);
        assert(init[index] == listings[index]);
        assert((head + tail).subrange(8 * index, 8 * index + 8) =~= head.subrange(
            8 * index,
            8 * index + 8,
        ));
    } else {
        assert((head + tail).subrange(8 * index, 8 * index + 8) =~= tail);
    }
}

/// The header is eight bytes for each listing.
pub proof fn lemma_counts_len(listings: Seq<Seq<(Seq<u8>, Seq<u8>)>>)
    ensures
        counts_bytes(listings).len() == 8 * listings.len(),
    decreases listings.len(),
{
    lemma_auto_spec_u64_to_from_le_bytes();
    if listings.len() > 0 {
        lemma_counts_len(listings.drop_last());
    }
}

/// Restoring never changes how many collections there are, and the collections
/// after the ones restored stay as they were.
pub proof fn lemma_restore_collections_frame(
    bytes: Seq<u8>,
    upto: nat,
    before: Seq<Map<Seq<u8>, Seq<u8>>>,
)
    requires
        upto <= before.len(),
    ensures
        restore_collections(bytes, upto, before).collections.len() == before.len(),
        forall|i: int|
            upto <= i < before.len() ==> restore_collections(bytes, upto, before).collections[i]
                == before[i],
    decreases upto,
{
    if upto > 0 {
        lemma_restore_collections_frame(bytes, (upto - 1) as nat, before);
    }
}

/// Restoring more collections leaves the ones restored earlier as they are.
pub proof fn lemma_restore_collections_keeps(
    bytes: Seq<u8>,
    kept: nat,
    upto: nat,
    before: Seq<Map<Seq<u8>, Seq<u8>>>,
)
    requires
        kept <= upto <= before.len(),
    ensures
        forall|i: int|
            0 <= i < kept ==> restore_collections(bytes, upto, before).collections[i]
                == restore_collections(bytes, kept, before).collections[i],
    decreases upto,
{
    if kept < upto {
        lemma_restore_collections_keeps(bytes, kept, (upto - 1) as nat, before);
        lemma_restore_collections_frame(bytes, (upto - 1) as nat, before);
    }
}

/// When the header and the pairs of the first `upto` listings stand in
/// `bytes`, those collections are restored in full.
pub proof fn lemma_restore_collections_written(
    bytes: Seq<u8>,
    listings: Seq<Seq<(Seq<u8>, Seq<u8>)>>,
    upto: nat,
    before: Seq<Map<Seq<u8>, Seq<u8>>>,
)
    requires
        listings_fit(listings),
        before.len() == COLLECTION_COUNT,
        upto <= COLLECTION_COUNT,
        holds_at(bytes, 0, counts_bytes(listings)),
        holds_at(bytes, HEADER_BYTES as int, bodies_bytes(listings.take(upto as int))),
    ensures
        restore_collections(bytes, upto, before).complete,
        restore_collections(bytes, upto, before).next == HEADER_BYTES + bodies_bytes(
            listings.take(upto as int),
        ).len(),
        forall|i: int|
            0 <= i < upto ==> restore_collections(bytes, upto, before).collections[i]
                == fold_insert(before[i], listings[i]),
    decreases upto,
{
    if upto > 0 {
        let index = upto - 1;
        let taken = listings.take(upto as int);
        assert(taken.drop_last() =~= listings.take(index));
        assert(taken.last() == listings[index]);
        let head = bodies_bytes(listings.take(index));
        let tail = pairs_bytes(listings[index]);
        let whole = bodies_bytes(taken);
        assert(whole == head + tail);
        let window = bytes.subrange(HEADER_BYTES as int, HEADER_BYTES + whole.len());
        assert(bytes.subrange(HEADER_BYTES as int, HEADER_BYTES + head.len()) =~= window.subrange(
            0,
            head.len() as int,
        ));
        assert(window.subrange(0, head.len() as int) =~= head);
        lemma_restore_collections_written(bytes, listings, index as nat, before);
        lemma_restore_collections_frame(bytes, index as nat, before);
        let prev = restore_collections(bytes, index as nat, before);
        assert(bytes.subrange(HEADER_BYTES + head.len(), HEADER_BYTES + head.len() + tail.len())
            =~= window.subrange(head.len() as int, whole.len() as int));
        assert(window.subrange(head.len() as int, whole.len() as int) =~= tail);
        assert(count_at(bytes, index) == listings[index].len()) by {
            lemma_auto_spec_u64_to_from_le_bytes();
            lemma_counts_bytes(listings, index);
            let counts = counts_bytes(listings);
            assert(bytes.subrange(8 * index, 8 * index + 8) =~= bytes.subrange(
                0,
                counts.len() as int,
            ).subrange(8 * index, 8 * index + 8));
        }
        lemma_restore_pairs_written(
            bytes,
            prev.next,
            listings[index],
            Collection::at(index).text_keyed(),
            prev.collections[index],
        );
    }
}

/// Storing pairs with pairwise different keys: what the result holds.
pub proof fn lemma_fold_insert_contents(
    into: Map<Seq<u8>, Seq<u8>>,
    pairs: Seq<(Seq<u8>, Seq<u8>)>,
)
    requires
        forall|i: int, j: int|
            0 <= i < pairs.len() && 0 <= j < pairs.len() && i != j ==> #[trigger] pairs[i].0
                != #[trigger] pairs[j].0,
    ensures
        forall|i: int|
            0 <= i < pairs.len() ==> fold_insert(into, pairs).contains_key(#[trigger] pairs[i].0)
                && fold_insert(into, pairs)[pairs[i].0] == pairs[i].1,
        forall|k: Seq<u8>| #[trigger]
            fold_insert(into, pairs).contains_key(k) ==> into.contains_key(k) || exists|i: int|
                0 <= i < pairs.len() && #[trigger] pairs[i].0 == k,
    decreases pairs.len(),
{
    if pairs.len() > 0 {
        let init = pairs.drop_last();
        let last = pairs.last();
        assert forall|i: int, j: int|
            0 <= i < init.len() && 0 <= j < init.len() && i != j implies #[trigger] init[i].0
            != #[trigger] init[j].0 by {
            assert(init[i] == pairs[i] && init[j] == pairs[j]);
        }
        lemma_fold_insert_contents(into, init);
        let result = fold_insert(into, pairs);
        assert forall|i: int| 0 <= i < pairs.len() implies result.contains_key(
            #[trigger] pairs[i].0,
        ) && result[pairs[i].0] == pairs[i].1 by {
            if i < init.len() {
                assert(init[i] == pairs[i]);
                assert(pairs[i].0 != pairs[pairs.len() - 1].0);
            }
        }
        assert forall|k: Seq<u8>| #[trigger] result.contains_key(k) implies into.contains_key(k)
            || exists|i: int| 0 <= i < pairs.len() && #[trigger] pairs[i].0 == k by {
            if k == last.0 {
                assert(pairs[pairs.len() - 1].0 == k);
            } else if !into.contains_key(k) {
                assert(fold_insert(into, init).contains_key(k));
                let i = choose|i: int| 0 <= i < init.len() && #[trigger] init[i].0 == k;
                assert(pairs[i].0 == k);
            }
        }
    }
}

/// Storing a listing into an empty collection gives the listed contents.
pub proof fn lemma_fold_insert_listing(
    pairs: Seq<(Seq<u8>, Seq<u8>)>,
    contents: Map<Seq<u8>, Seq<u8>>,
)
    requires
        is_listing_of(pairs, contents),
    ensures
        fold_insert(no_entries(), pairs) == contents,
{
    lemma_listing_distinct(pairs, contents);
    lemma_fold_insert_contents(no_entries(), pairs);
    let result = fold_insert(no_entries(), pairs);
    assert forall|k: Seq<u8>| result.contains_key(k) == contents.contains_key(k) by {
        if contents.contains_key(k) {
            let i = choose|i: int| 0 <= i < pairs.len() && #[trigger] pairs[i].0 == k;
            assert(result.contains_key(pairs[i].0));
        }
        if result.contains_key(k) {
            let i = choose|i: int| 0 <= i < pairs.len() && #[trigger] pairs[i].0 == k;
            assert(contents.contains_key(pairs[i].0));
        }
    }
    assert forall|k: Seq<u8>| result.contains_key(k) implies result[k] == contents[k] by {
        let i = choose|i: int| 0 <= i < pairs.len() && #[trigger] pairs[i].0 == k;
        assert(result[pairs[i].0] == pairs[i].1);
    }
    assert(result =~= contents);
}

/// Listings of a well-formed store can be carried in full.
pub proof fn lemma_store_listings_fit(store: Store, listings: Seq<Seq<(Seq<u8>, Seq<u8>)>>)
    requires
        store.wf(),
        lists_store(listings, store),
    ensures
        listings_fit(listings),
{
    assert forall|i: int| 0 <= i < COLLECTION_COUNT implies (#[trigger] listings[i]).len()
        <= u64::MAX && pairs_fit(listings[i], Collection::at(i).text_keyed()) by {
        let c = Collection::at(i);
        assert(collection_ok(store.contents(c), c));
        assert(is_listing_of(listings[i], store.contents(c)));
        lemma_listing_length(listings[i], store.contents(c));
        assert forall|j: int| 0 <= j < listings[i].len() implies (#[trigger] listings[i][j]).0.len()
            <= MAX_ENTRY_BYTES && listings[i][j].1.len() <= MAX_ENTRY_BYTES && (c.text_keyed()
            ==> valid_utf8(listings[i][j].0)) by {
            assert(store.contents(c).contains_key(listings[i][j].0));
        }
    }
}

/// Truncation tolerance. Cut a store's snapshot anywhere after the pairs of
/// its first `kept` collections: reading the cut bytes into empty collections
/// still restores each of those `kept` collections exactly.
pub proof fn law_truncated_snapshot(
    store: Store,
    listings: Seq<Seq<(Seq<u8>, Seq<u8>)>>,
    kept: nat,
    cut: int,
)
    requires
        store.wf(),
        lists_store(listings, store),
        kept <= COLLECTION_COUNT,
        HEADER_BYTES + bodies_bytes(listings.take(kept as int)).len() <= cut <= snapshot_bytes(
            listings,
        ).len(),
    ensures
        restored(snapshot_bytes(listings).subrange(0, cut), empty_collections()).collections.len()
            == COLLECTION_COUNT,
        forall|i: int|
            0 <= i < kept ==> restored(
                snapshot_bytes(listings).subrange(0, cut),
                empty_collections(),
            ).collections[i] == store.contents(Collection::at(i)),
{
    let full = snapshot_bytes(listings);
    let bytes = full.subrange(0, cut);
    let before = empty_collections();
    let counts = counts_bytes(listings);
    let taken = bodies_bytes(listings.take(kept as int));
    lemma_store_listings_fit(store, listings);
    lemma_counts_len(listings);
    assert(counts.len() == HEADER_BYTES);
    lemma_bodies_prefix(listings, kept);
    assert(bytes.subrange(0, counts.len() as int) =~= counts);
    assert(bytes.subrange(HEADER_BYTES as int, HEADER_BYTES + taken.len()) =~= taken) by {
        let bodies = bodies_bytes(listings);
        assert(bodies.subrange(0, taken.len() as int) == taken);
        assert forall|j: int| 0 <= j < taken.len() implies bytes.subrange(
            HEADER_BYTES as int,
            HEADER_BYTES + taken.len(),
        )[j] == taken[j] by {
            assert(full[HEADER_BYTES + j] == bodies[j]);
            assert(bodies.subrange(0, taken.len() as int)[j] == bodies[j]);
        }
    }
    lemma_restore_collections_written(bytes, listings, kept, before);
    lemma_restore_collections_keeps(bytes, kept, COLLECTION_COUNT as nat, before);
    lemma_restore_collections_frame(bytes, COLLECTION_COUNT as nat, before);
    assert forall|i: int| 0 <= i < kept implies restored(bytes, before).collections[i]
        == store.contents(Collection::at(i)) by {
        lemma_fold_insert_listing(listings[i], store.contents(Collection::at(i)));
    }
}

/// The pairs of the first `kept` listings are a prefix of all the pairs.
pub proof fn lemma_bodies_prefix(listings: Seq<Seq<(Seq<u8>, Seq<u8>)>>, kept: nat)
    requires
        kept <= listings.len(),
    ensures
        bodies_bytes(listings.take(kept as int)).len() <= bodies_bytes(listings).len(),
        bodies_bytes(listings).subrange(0, bodies_bytes(listings.take(kept as int)).len() as int)
            == bodies_bytes(listings.take(kept as int)),
    decreases listings.len(),
{
    if kept == listings.len() {
        assert(listings.take(kept as int) =~= listings);
        assert(bodies_bytes(listings).subrange(0, bodies_bytes(listings).len() as int)
            =~= bodies_bytes(listings));
    } else {
        let init = listings.drop_last();
        assert(init.take(kept as int) =~= listings.take(kept as int));
        lemma_bodies_prefix(init, kept);
        let part = bodies_bytes(listings.take(kept as int));
        assert(bodies_bytes(listings).subrange(0, part.len() as int) =~= bodies_bytes(
            init,
        ).subrange(0, part.len() as int));
    }
}

/// Snapshot round trip. Reading a store's snapshot into empty collections
/// reproduces the contents of all six collections, and the reading is
/// complete.
pub proof fn law_snapshot_round_trip(store: Store, bytes: Seq<u8>)
    requires
        store.wf(),
        is_snapshot_of(bytes, store),
    ensures
        restored(bytes, empty_collections()).collections == store.all_contents(),
        restored(bytes, empty_collections()).complete,
{
    let listings = choose|listings: Seq<Seq<(Seq<u8>, Seq<u8>)>>| #[trigger]
        lists_store(listings, store) && bytes == snapshot_bytes(listings);
    assert(listings.take(COLLECTION_COUNT as int) =~= listings);
    assert(bytes.subrange(0, bytes.len() as int) =~= bytes);
    lemma_counts_len(listings);
    law_truncated_snapshot(store, listings, COLLECTION_COUNT as nat, bytes.len() as int);
    assert(restored(bytes, empty_collections()).collections =~= store.all_contents());
    lemma_store_listings_fit(store, listings);
    lemma_counts_len(listings);
    assert(bytes.subrange(0, counts_bytes(listings).len() as int) =~= counts_bytes(listings));
    assert(bytes.subrange(HEADER_BYTES as int, HEADER_BYTES + bodies_bytes(listings).len())
        =~= bodies_bytes(listings));
    lemma_restore_collections_written(
        bytes,
        listings,
        COLLECTION_COUNT as nat,
        empty_collections(),
    );
}

/// Absence tolerance. Reading no bytes at all stores nothing and leaves every
/// collection as it was.
pub proof fn law_absent_snapshot(before: Seq<Map<Seq<u8>, Seq<u8>>>)
    ensures
        restored(Seq::<u8>::empty(), before).collections == before,
        restored(Seq::<u8>::empty(), before).stored == 0,
{
}

/// A store has one snapshot only.
pub proof fn law_snapshot_unique(store: Store, first: Seq<u8>, second: Seq<u8>)
    requires
        store.wf(),
        is_snapshot_of(first, store),
        is_snapshot_of(second, store),
    ensures
        first == second,
{
    let a = choose|listings: Seq<Seq<(Seq<u8>, Seq<u8>)>>| #[trigger]
        lists_store(listings, store) && first == snapshot_bytes(listings);
    let b = choose|listings: Seq<Seq<(Seq<u8>, Seq<u8>)>>| #[trigger]
        lists_store(listings, store) && second == snapshot_bytes(listings);
    assert forall|i: int| 0 <= i < COLLECTION_COUNT implies a[i] == b[i] by {
        let c = Collection::at(i);
        assert(collection_ok(store.contents(c), c));
        lemma_listing_unique(a[i], b[i], store.contents(c));
    }
    assert(a =~= b);
}

} // verus!
