//! The store: six logical collections, each a sorted map on its own segment.

use crate::typed_map::{
    is_listing_of, no_entries, pairs_view, within_limits, RegionAllocator, TypedMap, MAX_ENTRY_BYTES,
    SEGMENT_LIMIT,
};
use vstd::prelude::*;
use vstd::utf8::*;

verus! {

/// Number of logical collections.
pub const COLLECTION_COUNT: usize = 6;

/// The six logical collections, in segment order.
#[derive(Clone, Copy, Debug, PartialEq, Eq, Structural)]
pub enum Collection {
    /// Document id to document record.
    Documents,
    /// Institution id to institution record.
    Institutions,
    /// Owner identity to user profile.
    UserProfiles,
    /// Owner identity to the list of document ids the owner holds.
    OwnerTokens,
    /// Transaction id to token record.
    Nfts,
    /// Document id to transaction id.
    DocumentNfts,
}

impl Collection {
    /// The collection's place in segment order, which is its segment identifier.
    pub open spec fn index(self) -> int {
        match self {
            Collection::Documents => 0,
            Collection::Institutions => 1,
            Collection::UserProfiles => 2,
            Collection::OwnerTokens => 3,
            Collection::Nfts => 4,
            Collection::DocumentNfts => 5,
        }
    }

    /// Whether the collection's keys are text; the others are keyed by identity.
    pub open spec fn text_keyed(self) -> bool {
        !(self is UserProfiles) && !(self is OwnerTokens)
    }

    /// The collection at place `index`; past the last one, the last.
    pub open spec fn at(index: int) -> Collection {
        if index <= 0 {
            Collection::Documents
        } else if index == 1 {
            Collection::Institutions
        } else if index == 2 {
            Collection::UserProfiles
        } else if index == 3 {
            Collection::OwnerTokens
        } else if index == 4 {
            Collection::Nfts
        } else {
            Collection::DocumentNfts
        }
    }

    /// The segment identifier of the collection.
    pub fn segment_id(&self) -> (id: u8)
        ensures
            id == self.index(),
            id < SEGMENT_LIMIT,
    {
        match self {
            Collection::Documents => 0,
            Collection::Institutions => 1,
            Collection::UserProfiles => 2,
            Collection::OwnerTokens => 3,
            Collection::Nfts => 4,
            Collection::DocumentNfts => 5,
        }
    }

    /// The collection with segment identifier `id`, if there is one.
    pub fn from_segment_id(id: u8) -> (collection: Option<Collection>)
        ensures
            collection.is_some() == (id < COLLECTION_COUNT),
            collection.is_some() ==> collection.unwrap() == Collection::at(id as int)
                && collection.unwrap().index() == id,
    {
        match id {
            0 => Some(Collection::Documents),
            1 => Some(Collection::Institutions),
            2 => Some(Collection::UserProfiles),
            3 => Some(Collection::OwnerTokens),
            4 => Some(Collection::Nfts),
            5 => Some(Collection::DocumentNfts),
            _ => None,
        }
    }

    /// Whether the collection's keys are text.
    pub fn has_text_keys(&self) -> (yes: bool)
        ensures
            yes == self.text_keyed(),
    {
        match self {
            Collection::UserProfiles => false,
            Collection::OwnerTokens => false,
            _ => true,
        }
    }
}

/// Every key of `contents` is well-formed UTF-8.
pub open spec fn text_keys(contents: Map<Seq<u8>, Seq<u8>>) -> bool {
    forall|k: Seq<u8>| #[trigger] contents.contains_key(k) ==> valid_utf8(k)
}

/// What must hold of the contents of collection `c`.
pub open spec fn collection_ok(contents: Map<Seq<u8>, Seq<u8>>, c: Collection) -> bool {
    within_limits(contents) && (c.text_keyed() ==> text_keys(contents))
}

/// The six collections, each on its own segment of one region.
pub struct Store {
    documents: TypedMap,
    institutions: TypedMap,
    user_profiles: TypedMap,
    owner_tokens: TypedMap,
    nfts: TypedMap,
    document_nfts: TypedMap,
}

impl Store {
    /// The key-to-bytes association that collection `c` holds.
    pub closed spec fn contents(&self, c: Collection) -> Map<Seq<u8>, Seq<u8>> {
        match c {
            Collection::Documents => self.documents@,
            Collection::Institutions => self.institutions@,
            Collection::UserProfiles => self.user_profiles@,
            Collection::OwnerTokens => self.owner_tokens@,
            Collection::Nfts => self.nfts@,
            Collection::DocumentNfts => self.document_nfts@,
        }
    }

    /// The contents of all six collections, in segment order.
    pub open spec fn all_contents(&self) -> Seq<Map<Seq<u8>, Seq<u8>>> {
        Seq::new(COLLECTION_COUNT as nat, |i: int| self.contents(Collection::at(i)))
    }

    /// The store's invariant: entries fit the entry limit, and the keys of the
    /// text-keyed collections are text.
    pub open spec fn wf(&self) -> bool {
        forall|c: Collection| collection_ok(#[trigger] self.contents(c), c)
    }

    /// A store over a fresh region: six empty collections on segments 0 to 5.
    pub fn new() -> (store: Self)
        ensures
            store.wf(),
            forall|c: Collection| #[trigger] store.contents(c) == no_entries(),
    {
        let mut allocator = RegionAllocator::new();
        Store::on(&mut allocator)
    }

    /// A store on the region of `allocator`: six empty collections on the
    /// segments 0 to 5, which must not have been granted before.
    pub fn on(allocator: &mut RegionAllocator) -> (store: Self)
        requires
            forall|id: u8| id < COLLECTION_COUNT ==> !old(allocator).granted().contains(id),
        ensures
            store.wf(),
            forall|c: Collection| #[trigger] store.contents(c) == no_entries(),
            forall|id: u8|
                final(allocator).granted().contains(id) <==> old(allocator).granted().contains(id)
                    || id < COLLECTION_COUNT,
    {
        let documents = TypedMap::new(allocator.segment(0));
        let institutions = TypedMap::new(allocator.segment(1));
        let user_profiles = TypedMap::new(allocator.segment(2));
        let owner_tokens = TypedMap::new(allocator.segment(3));
        let nfts = TypedMap::new(allocator.segment(4));
        let document_nfts = TypedMap::new(allocator.segment(5));
        assert forall|id: u8|
            allocator.granted().contains(id) <==> old(allocator).granted().contains(id) || id
                < COLLECTION_COUNT by {}
        Store { documents, institutions, user_profiles, owner_tokens, nfts, document_nfts }
    }

    /// The bytes stored under `key` in collection `c`, if any.
    pub fn get_raw(&self, c: Collection, key: &Vec<u8>) -> (found: Option<Vec<u8>>)
        ensures
            found.is_some() == self.contents(c).contains_key(key@),
            found.is_some() ==> found.unwrap()@ == self.contents(c)[key@],
    {
        match c {
            Collection::Documents => self.documents.get(key),
            Collection::Institutions => self.institutions.get(key),
            Collection::UserProfiles => self.user_profiles.get(key),
            Collection::OwnerTokens => self.owner_tokens.get(key),
            Collection::Nfts => self.nfts.get(key),
            Collection::DocumentNfts => self.document_nfts.get(key),
        }
    }

    /// Whether collection `c` holds `key`.
    pub fn contains_raw(&self, c: Collection, key: &Vec<u8>) -> (present: bool)
        ensures
            present == self.contents(c).contains_key(key@),
    {
        match c {
            Collection::Documents => self.documents.contains(key),
            Collection::Institutions => self.institutions.contains(key),
            Collection::UserProfiles => self.user_profiles.contains(key),
            Collection::OwnerTokens => self.owner_tokens.contains(key),
            Collection::Nfts => self.nfts.contains(key),
            Collection::DocumentNfts => self.document_nfts.contains(key),
        }
    }

    /// Stores `value` under `key` in collection `c` and leaves the other
    /// collections as they were. Returns the bytes that were replaced.
    pub fn put_raw(&mut self, c: Collection, key: Vec<u8>, value: Vec<u8>) -> (previous: Option<
        Vec<u8>,
    >)
        requires
            old(self).wf(),
            key@.len() <= MAX_ENTRY_BYTES,
            value@.len() <= MAX_ENTRY_BYTES,
            c.text_keyed() ==> valid_utf8(key@),
        ensures
            final(self).wf(),
            final(self).contents(c) == old(self).contents(c).insert(key@, value@),
            forall|d: Collection| d != c ==> #[trigger] final(self).contents(d) == old(self).contents(d),
            previous.is_some() == old(self).contents(c).contains_key(key@),
            previous.is_some() ==> previous.unwrap()@ == old(self).contents(c)[key@],
    {
        proof {
            assert(collection_ok(old(self).contents(c), c));
        }
        let previous = match c {
            Collection::Documents => self.documents.put(key, value),
            Collection::Institutions => self.institutions.put(key, value),
            Collection::UserProfiles => self.user_profiles.put(key, value),
            Collection::OwnerTokens => self.owner_tokens.put(key, value),
            Collection::Nfts => self.nfts.put(key, value),
            Collection::DocumentNfts => self.document_nfts.put(key, value),
        };
        proof {
            assert forall|d: Collection| collection_ok(#[trigger] self.contents(d), d) by {
                assert(collection_ok(old(self).contents(d), d));
            }
        }
        previous
    }

    /// Removes `key` from collection `c` and leaves the other collections as
    /// they were. Returns the bytes that were removed.
    pub fn remove_raw(&mut self, c: Collection, key: &Vec<u8>) -> (previous: Option<Vec<u8>>)
        requires
            old(self).wf(),
        ensures
            final(self).wf(),
            final(self).contents(c) == old(self).contents(c).remove(key@),
            forall|d: Collection| d != c ==> #[trigger] final(self).contents(d) == old(self).contents(d),
            previous.is_some() == old(self).contents(c).contains_key(key@),
            previous.is_some() ==> previous.unwrap()@ == old(self).contents(c)[key@],
    {
        proof {
            assert(collection_ok(old(self).contents(c), c));
        }
        let previous = match c {
            Collection::Documents => self.documents.remove(key),
            Collection::Institutions => self.institutions.remove(key),
            Collection::UserProfiles => self.user_profiles.remove(key),
            Collection::OwnerTokens => self.owner_tokens.remove(key),
            Collection::Nfts => self.nfts.remove(key),
            Collection::DocumentNfts => self.document_nfts.remove(key),
        };
        proof {
            assert forall|d: Collection| collection_ok(#[trigger] self.contents(d), d) by {
                assert(collection_ok(old(self).contents(d), d));
            }
        }
        previous
    }

    /// The number of keys in collection `c`.
    pub fn count(&self, c: Collection) -> (count: u64)
        ensures
            count == self.contents(c).dom().len(),
    {
        match c {
            Collection::Documents => self.documents.len(),
            Collection::Institutions => self.institutions.len(),
            Collection::UserProfiles => self.user_profiles.len(),
            Collection::OwnerTokens => self.owner_tokens.len(),
            Collection::Nfts => self.nfts.len(),
            Collection::DocumentNfts => self.document_nfts.len(),
        }
    }

    /// Every pair of collection `c`, once each, in ascending key order.
    pub fn entries(&self, c: Collection) -> (entries: Vec<(Vec<u8>, Vec<u8>)>)
        requires
            self.wf(),
        ensures
            is_listing_of(pairs_view(entries@), self.contents(c)),
            entries@.len() == self.contents(c).dom().len(),
    {
        proof {
            assert(collection_ok(self.contents(c), c));
        }
        match c {
            Collection::Documents => self.documents.iter(),
            Collection::Institutions => self.institutions.iter(),
            Collection::UserProfiles => self.user_profiles.iter(),
            Collection::OwnerTokens => self.owner_tokens.iter(),
            Collection::Nfts => self.nfts.iter(),
            Collection::DocumentNfts => self.document_nfts.iter(),
        }
    }
}

} // verus!
