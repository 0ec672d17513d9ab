//! The region allocator and the sorted byte-keyed map that lives on one segment.

use ic_stable_structures::memory_manager::{MemoryId, MemoryManager, VirtualMemory};
use ic_stable_structures::{DefaultMemoryImpl, Memory, StableBTreeMap};
use vstd::prelude::*;

verus! {

/// Longest key or value, in bytes, that a map entry can hold.
pub const MAX_ENTRY_BYTES: usize = 0xFFFF_FFFF;

/// Number of segment identifiers the allocator can hand out.
pub const SEGMENT_LIMIT: u8 = 255;

/// The manager that partitions the region, `MemoryManager` over the default
/// memory. Opaque: nothing is known of a value but what the functions below say.
#[verifier::external_body]
pub struct RegionManager {
    inner: MemoryManager<DefaultMemoryImpl>,
}

/// The handle of one segment of the region, a `VirtualMemory`. Opaque.
#[verifier::external_body]
pub struct SegmentMemory {
    inner: VirtualMemory<DefaultMemoryImpl>,
}

/// The sorted tree that a segment carries, a `StableBTreeMap` from byte
/// strings to byte strings. Opaque: its contents are named by `tree_contents`.
#[verifier::external_body]
pub struct SegmentTree {
    inner: StableBTreeMap<Vec<u8>, Vec<u8>, VirtualMemory<DefaultMemoryImpl>>,
}

/// The key-to-value association that a segment's tree currently holds.
pub uninterp spec fn tree_contents(tree: SegmentTree) -> Map<Seq<u8>, Seq<u8>>;

/// Lexicographic order on byte strings: the order in which keys are walked.
pub open spec fn bytes_lt(a: Seq<u8>, b: Seq<u8>) -> bool
    decreases a.len(),
{
    if b.len() == 0 {
        false
    } else if a.len() == 0 {
        true
    } else if a[0] != b[0] {
        a[0] < b[0]
    } else {
        bytes_lt(a.skip(1), b.skip(1))
    }
}

/// No byte string is below itself.
pub proof fn lemma_bytes_lt_irreflexive(a: Seq<u8>)
    ensures
        !bytes_lt(a, a),
    decreases a.len(),
{
    if a.len() > 0 {
        lemma_bytes_lt_irreflexive(a.skip(1));
    }
}

/// The view of a list of owned pairs.
pub open spec fn pairs_view(pairs: Seq<(Vec<u8>, Vec<u8>)>) -> Seq<(Seq<u8>, Seq<u8>)> {
    Seq::new(pairs.len(), |i: int| (pairs[i].0@, pairs[i].1@))
}

/// `entries` lists `contents` once each, in strictly ascending key order.
pub open spec fn is_listing_of(
    entries: Seq<(Seq<u8>, Seq<u8>)>,
    contents: Map<Seq<u8>, Seq<u8>>,
) -> bool {
    &&& forall|i: int, j: int|
        0 <= i < j < entries.len() ==> bytes_lt(#[trigger] entries[i].0, #[trigger] entries[j].0)
    &&& forall|i: int|
        0 <= i < entries.len() ==> contents.contains_key(#[trigger] entries[i].0)
            && contents[entries[i].0] == entries[i].1
    &&& forall|k: Seq<u8>| #[trigger]
        contents.contains_key(k) ==> exists|i: int|
            0 <= i < entries.len() && #[trigger] entries[i].0 == k
}

/// The association that holds nothing.
pub open spec fn no_entries() -> Map<Seq<u8>, Seq<u8>> {
    Map::empty()
}

/// `contents` has exactly `count` keys.
pub open spec fn has_size(contents: Map<Seq<u8>, Seq<u8>>, count: nat) -> bool {
    contents.dom().finite() && contents.dom().len() == count
}

/// Calls `MemoryManager::init` on a fresh `DefaultMemoryImpl`; nothing is
/// claimed of the manager it returns. Where the host has one persistent
/// memory, every default memory is that memory, so a program makes one
/// manager only.
#[verifier::external_body]
fn manager_init() -> (manager: RegionManager) {
    RegionManager { inner: MemoryManager::init(DefaultMemoryImpl::default()) }
}

/// Calls `MemoryId::new` and `MemoryManager::get`. The identifier 255 is left
/// out because `MemoryId::new` refuses it; nothing is claimed of the handle.
#[verifier::external_body]
fn manager_get(manager: &RegionManager, id: u8) -> (memory: SegmentMemory)
    requires
        id < SEGMENT_LIMIT,
{
    SegmentMemory { inner: manager.inner.get(MemoryId::new(id)) }
}

/// Calls `StableBTreeMap::new`, which lays out a new tree on the memory it is
/// given: the tree that comes back holds nothing.
#[verifier::external_body]
fn tree_new(memory: SegmentMemory) -> (fresh: SegmentTree)
    ensures
        tree_contents(fresh) == no_entries(),
{
    SegmentTree { inner: StableBTreeMap::new(memory.inner) }
}

/// Calls `StableBTreeMap::get`: the value stored under the key, if any.
#[verifier::external_body]
fn tree_get(
    tree: &SegmentTree,
    key: &Vec<u8>,
) -> (found: Option<Vec<u8>>)
    ensures
        found.is_some() == tree_contents(*tree).contains_key(key@),
        found.is_some() ==> found.unwrap()@ == tree_contents(*tree)[key@],
{
    tree.inner.get(key)
}

/// Calls `StableBTreeMap::contains_key`.
#[verifier::external_body]
fn tree_contains(
    tree: &SegmentTree,
    key: &Vec<u8>,
) -> (present: bool)
    ensures
        present == tree_contents(*tree).contains_key(key@),
{
    tree.inner.contains_key(key)
}

/// Calls `StableBTreeMap::insert`: the pair is stored, replacing what the key
/// held, and the replaced value is returned. The crate writes both lengths as
/// 32-bit numbers, so longer keys and values are left out.
#[verifier::external_body]
fn tree_insert(
    tree: &mut SegmentTree,
    key: Vec<u8>,
    value: Vec<u8>,
) -> (previous: Option<Vec<u8>>)
    requires
        key@.len() <= MAX_ENTRY_BYTES,
        value@.len() <= MAX_ENTRY_BYTES,
    ensures
        tree_contents(*final(tree)) == tree_contents(*old(tree)).insert(key@, value@),
        previous.is_some() == tree_contents(*old(tree)).contains_key(key@),
        previous.is_some() ==> previous.unwrap()@ == tree_contents(*old(tree))[key@],
{
    tree.inner.insert(key, value)
}

/// Calls `StableBTreeMap::remove`: the key is gone afterwards, and the value it
/// held is returned.
#[verifier::external_body]
fn tree_remove(
    tree: &mut SegmentTree,
    key: &Vec<u8>,
) -> (previous: Option<Vec<u8>>)
    ensures
        tree_contents(*final(tree)) == tree_contents(*old(tree)).remove(key@),
        previous.is_some() == tree_contents(*old(tree)).contains_key(key@),
        previous.is_some() ==> previous.unwrap()@ == tree_contents(*old(tree))[key@],
{
    tree.inner.remove(key)
}

/// Calls `StableBTreeMap::len`: the number of keys held.
#[verifier::external_body]
fn tree_len(tree: &SegmentTree) -> (count: u64)
    ensures
        has_size(tree_contents(*tree), count as nat),
{
    tree.inner.len()
}

/// Calls `StableBTreeMap::iter` and collects every entry it yields: each stored
/// pair once, sorted by key.
#[verifier::external_body]
fn tree_entries(
    tree: &SegmentTree,
) -> (entries: Vec<(Vec<u8>, Vec<u8>)>)
    ensures
        is_listing_of(pairs_view(entries@), tree_contents(*tree)),
{
    tree.inner.iter().map(|entry| entry.into_pair()).collect()
}

/// The bytes that a segment currently holds, whole pages of them.
pub uninterp spec fn memory_contents(memory: SegmentMemory) -> Seq<u8>;

/// Bytes in one page of a segment.
pub const PAGE_BYTES: u64 = 65536;

/// The most pages that one region can manage.
pub const REGION_PAGES: u64 = 4194304;

/// `after` is `before` with `run` written over it from `offset` on.
pub open spec fn overwritten(before: Seq<u8>, offset: int, run: Seq<u8>, after: Seq<u8>) -> bool {
    &&& after.len() == before.len()
    &&& forall|i: int|
        0 <= i < before.len() ==> #[trigger] after[i] == (if offset <= i < offset + run.len() {
            run[i - offset]
        } else {
            before[i]
        })
}

/// `after` is `before` with `pages` more pages behind it.
pub open spec fn grown(before: Seq<u8>, pages: u64, after: Seq<u8>) -> bool {
    after.len() == before.len() + pages * PAGE_BYTES && after.subrange(0, before.len() as int)
        == before
}

/// Calls `Memory::size` on the segment: its size in pages of 64 KiB.
#[verifier::external_body]
fn memory_size(memory: &SegmentMemory) -> (pages: u64)
    ensures
        memory_contents(*memory).len() == pages * PAGE_BYTES,
{
    memory.inner.size()
}

/// Calls `Memory::grow` on the segment. It answers -1 and changes nothing
/// when the region cannot manage that much; otherwise it answers the size
/// before, in pages, and the segment has that many pages more, with the bytes
/// it had. Sizes beyond what a region can manage are left out, as the crate
/// adds them up unchecked. The crate stops the program when the memory under
/// the region itself refuses to grow.
#[verifier::external_body]
fn memory_grow(memory: &mut SegmentMemory, pages: u64) -> (previous: i64)
    requires
        memory_contents(*old(memory)).len() <= REGION_PAGES * PAGE_BYTES,
        pages <= REGION_PAGES,
    ensures
        previous == -1 ==> memory_contents(*final(memory)) == memory_contents(*old(memory)),
        previous != -1 ==> previous * PAGE_BYTES == memory_contents(*old(memory)).len() && grown(
            memory_contents(*old(memory)),
            pages,
            memory_contents(*final(memory)),
        ),
{
    memory.inner.grow(pages)
}

/// Calls `Memory::write` on the segment: the bytes are written from `offset`
/// on. A write that reaches past the end is left out, as the crate refuses it.
#[verifier::external_body]
fn memory_write(memory: &mut SegmentMemory, offset: u64, src: &[u8])
    requires
        offset + src@.len() <= memory_contents(*old(memory)).len(),
    ensures
        overwritten(
            memory_contents(*old(memory)),
            offset as int,
            src@,
            memory_contents(*final(memory)),
        ),
{
    memory.inner.write(offset, src)
}

/// Calls `Memory::read` on the segment: the `len` bytes from `offset` on. A
/// read that reaches past the end is left out, as the crate refuses it.
#[verifier::external_body]
fn memory_read(memory: &SegmentMemory, offset: u64, len: usize) -> (bytes: Vec<u8>)
    requires
        offset + len <= memory_contents(*memory).len(),
    ensures
        bytes@ == memory_contents(*memory).subrange(offset as int, offset + len),
{
    let mut bytes = vec![0u8; len];
    memory.inner.read(offset, &mut bytes);
    bytes
}

/// What the region's answer to a request to grow means: -1 says that the
/// segment did not grow, every other answer that it did.
pub fn grew_by(previous: i64) -> (grew: bool)
    ensures
        grew == (previous != -1),
{
    previous != -1
}

/// One sub-region of the persistent region, named by its identifier.
pub struct Segment {
    id: u8,
    memory: SegmentMemory,
}

impl Segment {
    /// The identifier the segment was granted under.
    pub closed spec fn id(&self) -> u8 {
        self.id
    }

    /// The identifier the segment was granted under.
    pub fn tag(&self) -> (id: u8)
        ensures
            id == self.id(),
    {
        self.id
    }

    /// The bytes that the segment holds.
    pub closed spec fn contents(&self) -> Seq<u8> {
        memory_contents(self.memory)
    }

    /// The size of the segment in pages.
    pub fn pages(&self) -> (pages: u64)
        ensures
            self.contents().len() == pages * PAGE_BYTES,
    {
        memory_size(&self.memory)
    }

    /// Grows the segment by `pages` pages, or leaves it as it is. Growing by
    /// no pages always succeeds, and nothing is asked of the region for it.
    /// Growing by more pages than a region can manage, or growing a segment
    /// that is larger than that already, always fails. In between the region
    /// decides. Says whether the segment grew.
    pub fn grow(&mut self, pages: u64) -> (grew: bool)
        ensures
            final(self).id() == old(self).id(),
            grew ==> grown(old(self).contents(), pages, final(self).contents()),
            !grew ==> final(self).contents() == old(self).contents(),
            pages == 0 ==> grew,
            pages > REGION_PAGES ==> !grew,
            pages > 0 && old(self).contents().len() > REGION_PAGES * PAGE_BYTES ==> !grew,
    {
        if pages == 0 {
            assert(self.contents().subrange(0, self.contents().len() as int) =~= self.contents());
            return true;
        }
        let held = memory_size(&self.memory);
        if held > REGION_PAGES || pages > REGION_PAGES {
            return false;
        }
        assert(held * PAGE_BYTES <= REGION_PAGES * PAGE_BYTES) by (nonlinear_arith)
            requires
                held <= REGION_PAGES,
        ;
        let previous = memory_grow(&mut self.memory, pages);
        grew_by(previous)
    }

    /// Writes `src` into the segment from `offset` on, if it fits. Says
    /// whether it did.
    pub fn write(&mut self, offset: u64, src: &[u8]) -> (written: bool)
        ensures
            final(self).id() == old(self).id(),
            written == (offset + src@.len() <= old(self).contents().len()),
            written ==> overwritten(
                old(self).contents(),
                offset as int,
                src@,
                final(self).contents(),
            ),
            !written ==> final(self).contents() == old(self).contents(),
    {
        let held = memory_size(&self.memory);
        let size: u128 = held as u128 * 65536u128;
        let end: u128 = offset as u128 + src.len() as u128;
        if end > size {
            return false;
        }
        memory_write(&mut self.memory, offset, src);
        true
    }

    /// The `len` bytes of the segment from `offset` on, if they are there.
    pub fn read(&self, offset: u64, len: usize) -> (bytes: Option<Vec<u8>>)
        ensures
            bytes.is_some() == (offset + len <= self.contents().len()),
            bytes.is_some() ==> bytes.unwrap()@ == self.contents().subrange(
                offset as int,
                offset + len,
            ),
    {
        let held = memory_size(&self.memory);
        let size: u128 = held as u128 * 65536u128;
        let end: u128 = offset as u128 + len as u128;
        if end > size {
            return None;
        }
        Some(memory_read(&self.memory, offset, len))
    }
}

/// Partitions the region into segments and grants each identifier once.
pub struct RegionAllocator {
    manager: RegionManager,
    granted: Vec<u8>,
}

impl RegionAllocator {
    /// The identifiers granted so far.
    pub closed spec fn granted(&self) -> Set<u8> {
        self.granted@.to_set()
    }

    /// An allocator over the region, with nothing granted. A program makes one
    /// allocator only: a second one would grant the same segments again.
    pub fn new() -> (allocator: Self)
        ensures
            allocator.granted() == Set::<u8>::empty(),
    {
        let allocator = RegionAllocator { manager: manager_init(), granted: Vec::new() };
        assert(allocator.granted@.to_set() =~= Set::<u8>::empty());
        allocator
    }

    /// Whether `id` has been granted already.
    pub fn is_granted(&self, id: u8) -> (yes: bool)
        ensures
            yes == self.granted().contains(id),
    {
        let mut i: usize = 0;
        while i < self.granted.len()
            invariant
                i <= self.granted@.len(),
                forall|j: int| 0 <= j < i ==> self.granted@[j] != id,
            decreases self.granted@.len() - i,
        {
            if self.granted[i] == id {
                return true;
            }
            i += 1;
        }
        false
    }

    /// Grants the segment `id`. An identifier at or above the limit, or one
    /// granted before, is a configuration fault and is left out.
    pub fn segment(&mut self, id: u8) -> (segment: Segment)
        requires
            id < SEGMENT_LIMIT,
            !old(self).granted().contains(id),
        ensures
            segment.id() == id,
            final(self).granted() == old(self).granted().insert(id),
    {
        let memory = manager_get(&self.manager, id);
        self.granted.push(id);
        proof {
            let before = old(self).granted@;
            let after = self.granted@;
            assert(after =~= before.push(id));
            assert forall|x: u8| after.to_set().contains(x) <==> before.to_set().insert(
                id,
            ).contains(x) by {
                if after.contains(x) {
                    let j = choose|j: int| 0 <= j < after.len() && after[j] == x;
                    if j < before.len() {
                        assert(before[j] == x);
                    }
                }
                if before.contains(x) {
                    let j = choose|j: int| 0 <= j < before.len() && before[j] == x;
                    assert(after[j] == x);
                }
                if x == id {
                    assert(after[before.len() as int] == id);
                }
            }
            assert(after.to_set() =~= before.to_set().insert(id));
        }
        Segment { id, memory }
    }
}

/// A sorted map from byte strings to byte strings, backed by one segment.
pub struct TypedMap {
    tree: SegmentTree,
}

impl View for TypedMap {
    type V = Map<Seq<u8>, Seq<u8>>;

    closed spec fn view(&self) -> Map<Seq<u8>, Seq<u8>> {
        tree_contents(self.tree)
    }
}

/// Every key and value of `contents` fits the entry limit, and the number of
/// keys fits a 64-bit count.
pub open spec fn within_limits(contents: Map<Seq<u8>, Seq<u8>>) -> bool {
    &&& contents.dom().finite()
    &&& contents.dom().len() <= u64::MAX
    &&& forall|k: Seq<u8>| #[trigger]
        contents.contains_key(k) ==> k.len() <= MAX_ENTRY_BYTES && contents[k].len()
            <= MAX_ENTRY_BYTES
}

impl TypedMap {
    /// The map's invariant: see `within_limits`.
    pub open spec fn wf(&self) -> bool {
        within_limits(self@)
    }

    /// A new, empty map on `segment`.
    pub fn new(segment: Segment) -> (map: Self)
        ensures
            map@ == no_entries(),
            map.wf(),
    {
        let map = TypedMap { tree: tree_new(segment.memory) };
        assert(map@.dom() =~= Set::<Seq<u8>>::empty());
        map
    }

    /// The value stored under `key`, if any.
    pub fn get(&self, key: &Vec<u8>) -> (found: Option<Vec<u8>>)
        ensures
            found.is_some() == self@.contains_key(key@),
            found.is_some() ==> found.unwrap()@ == self@[key@],
    {
        tree_get(&self.tree, key)
    }

    /// Whether `key` is stored.
    pub fn contains(&self, key: &Vec<u8>) -> (present: bool)
        ensures
            present == self@.contains_key(key@),
    {
        tree_contains(&self.tree, key)
    }

    /// Stores `value` under `key`, replacing and returning what was there.
    pub fn put(&mut self, key: Vec<u8>, value: Vec<u8>) -> (previous: Option<Vec<u8>>)
        requires
            old(self).wf(),
            key@.len() <= MAX_ENTRY_BYTES,
            value@.len() <= MAX_ENTRY_BYTES,
        ensures
            final(self).wf(),
            final(self)@ == old(self)@.insert(key@, value@),
            previous.is_some() == old(self)@.contains_key(key@),
            previous.is_some() ==> previous.unwrap()@ == old(self)@[key@],
    {
        let previous = tree_insert(&mut self.tree, key, value);
        let _ = tree_len(&self.tree);
        previous
    }

    /// Removes `key`, returning the value it held.
    pub fn remove(&mut self, key: &Vec<u8>) -> (previous: Option<Vec<u8>>)
        requires
            old(self).wf(),
        ensures
            final(self).wf(),
            final(self)@ == old(self)@.remove(key@),
            previous.is_some() == old(self)@.contains_key(key@),
            previous.is_some() ==> previous.unwrap()@ == old(self)@[key@],
    {
        let previous = tree_remove(&mut self.tree, key);
        let _ = tree_len(&self.tree);
        previous
    }

    /// The number of keys stored.
    pub fn len(&self) -> (count: u64)
        ensures
            count == self@.dom().len(),
            self@.dom().finite(),
    {
        tree_len(&self.tree)
    }

    /// Every stored pair, once each, in ascending key order.
    pub fn iter(&self) -> (entries: Vec<(Vec<u8>, Vec<u8>)>)
        requires
            self.wf(),
        ensures
            is_listing_of(pairs_view(entries@), self@),
            entries@.len() == self@.dom().len(),
    {
        let entries = tree_entries(&self.tree);
        proof {
            lemma_listing_length(pairs_view(entries@), self@);
        }
        entries
    }
}

/// The keys of a listing are pairwise different.
pub proof fn lemma_listing_distinct(entries: Seq<(Seq<u8>, Seq<u8>)>, contents: Map<Seq<u8>, Seq<u8>>)
    requires
        is_listing_of(entries, contents),
    ensures
        forall|i: int, j: int|
            0 <= i < entries.len() && 0 <= j < entries.len() && i != j ==> #[trigger] entries[i].0
                != #[trigger] entries[j].0,
{
    assert forall|i: int, j: int|
        0 <= i < entries.len() && 0 <= j < entries.len() && i != j implies #[trigger] entries[i].0
        != #[trigger] entries[j].0 by {
        lemma_bytes_lt_irreflexive(entries[i].0);
        if i < j {
            assert(bytes_lt(entries[i].0, entries[j].0));
        } else {
            assert(bytes_lt(entries[j].0, entries[i].0));
        }
    }
}

/// Of two byte strings, at most one is below the other.
pub proof fn lemma_bytes_lt_asymmetric(a: Seq<u8>, b: Seq<u8>)
    ensures
        !(bytes_lt(a, b) && bytes_lt(b, a)),
    decreases a.len(),
{
    if a.len() > 0 && b.len() > 0 && a[0] == b[0] {
        lemma_bytes_lt_asymmetric(a.skip(1), b.skip(1));
    }
}

/// A listing without its last entry lists the association without that key.
pub proof fn lemma_listing_drop_last(
    entries: Seq<(Seq<u8>, Seq<u8>)>,
    contents: Map<Seq<u8>, Seq<u8>>,
)
    requires
        is_listing_of(entries, contents),
        entries.len() > 0,
    ensures
        is_listing_of(entries.drop_last(), contents.remove(entries.last().0)),
{
    lemma_listing_distinct(entries, contents);
    let last = entries.last();
    let rest = entries.drop_last();
    let smaller = contents.remove(last.0);
    assert(contents.contains_key(entries[entries.len() - 1].0));
    assert forall|k: Seq<u8>| #[trigger] smaller.contains_key(k) implies exists|i: int|
        0 <= i < rest.len() && #[trigger] rest[i].0 == k by {
        assert(contents.contains_key(k));
        let i = choose|i: int| 0 <= i < entries.len() && #[trigger] entries[i].0 == k;
        assert(i < rest.len());
        assert(rest[i].0 == k);
    }
    assert forall|i: int| 0 <= i < rest.len() implies smaller.contains_key(#[trigger] rest[i].0)
        && smaller[rest[i].0] == rest[i].1 by {
        assert(rest[i] == entries[i]);
        assert(entries[i].0 != entries[entries.len() - 1].0);
    }
    assert forall|i: int, j: int| 0 <= i < j < rest.len() implies bytes_lt(
        #[trigger] rest[i].0,
        #[trigger] rest[j].0,
    ) by {
        assert(rest[i] == entries[i] && rest[j] == entries[j]);
    }
}

/// A listing has as many entries as the association has keys.
pub proof fn lemma_listing_length(entries: Seq<(Seq<u8>, Seq<u8>)>, contents: Map<Seq<u8>, Seq<u8>>)
    requires
        is_listing_of(entries, contents),
        contents.dom().finite(),
    ensures
        entries.len() == contents.dom().len(),
    decreases entries.len(),
{
    if entries.len() == 0 {
        assert(contents.dom() =~= Set::<Seq<u8>>::empty());
    } else {
        assert(contents.contains_key(entries[entries.len() - 1].0));
        lemma_listing_drop_last(entries, contents);
        lemma_listing_length(entries.drop_last(), contents.remove(entries.last().0));
    }
}

/// An association has one listing only: the order of the keys decides it.
pub proof fn lemma_listing_unique(
    first: Seq<(Seq<u8>, Seq<u8>)>,
    second: Seq<(Seq<u8>, Seq<u8>)>,
    contents: Map<Seq<u8>, Seq<u8>>,
)
    requires
        is_listing_of(first, contents),
        is_listing_of(second, contents),
        contents.dom().finite(),
    ensures
        first == second,
    decreases first.len(),
{
    lemma_listing_length(first, contents);
    lemma_listing_length(second, contents);
    if first.len() == 0 {
        assert(first =~= second);
    } else {
        let end = first.len() - 1;
        let a = first[end];
        let b = second[end];
        assert(contents.contains_key(a.0));
        assert(contents.contains_key(b.0));
        let j = choose|j: int| 0 <= j < second.len() && #[trigger] second[j].0 == a.0;
        let i = choose|i: int| 0 <= i < first.len() && #[trigger] first[i].0 == b.0;
        lemma_bytes_lt_asymmetric(a.0, b.0);
        lemma_bytes_lt_irreflexive(a.0);
        if j < end {
            assert(bytes_lt(second[j].0, second[end].0));
        }
        if i < end {
            assert(bytes_lt(first[i].0, first[end].0));
        }
        assert(a.0 == b.0);
        assert(a == b);
        lemma_listing_drop_last(first, contents);
        lemma_listing_drop_last(second, contents);
        lemma_listing_unique(first.drop_last(), second.drop_last(), contents.remove(a.0));
        assert(first =~= first.drop_last().push(a));
        assert(second =~= second.drop_last().push(b));
    }
}

} // verus!
