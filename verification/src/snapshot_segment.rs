//! The segment that carries the snapshot: the snapshot's length as a 64-bit
//! number, then the snapshot itself.

use crate::snapshot::{is_snapshot_of, read_snapshot, restored, write_snapshot, RestoreReport};
use crate::snapshot_laws::law_snapshot_unique;
use crate::store::{Collection, Store};
use crate::typed_map::{no_entries, RegionAllocator, Segment};
use crate::wire::{read_run, read_u64, u64_bytes};
use vstd::bytes::*;
use vstd::prelude::*;

verus! {

/// The identifier of the segment that carries the snapshot.
pub const SNAPSHOT_SEGMENT: u8 = 6;

/// The snapshot that a segment with the bytes `data` carries. A segment that
/// was never written, or whose length field reaches past its end or past what
/// this machine can address, carries the empty snapshot.
pub open spec fn snapshot_in(data: Seq<u8>) -> Seq<u8> {
    match read_u64(data, 0) {
        None => Seq::empty(),
        Some(len) => if len > usize::MAX {
            Seq::empty()
        } else {
            match read_run(data, 8, len as int) {
                None => Seq::empty(),
                Some(run) => run,
            }
        },
    }
}

/// The segment that carries the snapshot across a replacement.
pub struct SnapshotSegment {
    segment: Segment,
}

impl SnapshotSegment {
    /// The snapshot that the segment carries.
    pub closed spec fn held(&self) -> Seq<u8> {
        snapshot_in(self.segment.contents())
    }

    /// How many bytes the segment has room for.
    pub closed spec fn capacity(&self) -> nat {
        self.segment.contents().len()
    }

    /// The snapshot segment on `segment`, with whatever it carries: the
    /// snapshot that the segment's bytes spell, and the segment's room.
    pub fn new(segment: Segment) -> (carrier: Self)
        ensures
            carrier.held() == snapshot_in(segment.contents()),
            carrier.capacity() == segment.contents().len(),
    {
        SnapshotSegment { segment }
    }

    /// Reads the snapshot that the segment carries.
    pub fn load(&self) -> (bytes: Vec<u8>)
        ensures
            bytes@ == self.held(),
    {
        let head = match self.segment.read(0, 8) {
            Some(head) => head,
            None => { return Vec::new(); },
        };
        let len = u64_from_le_bytes(head.as_slice());
        if len > usize::MAX as u64 {
            return Vec::new();
        }
        match self.segment.read(8, len as usize) {
            Some(bytes) => bytes,
            None => Vec::new(),
        }
    }

    /// Writes `bytes` as the snapshot that the segment carries, growing the
    /// segment if it must. Says whether the snapshot was written: it is
    /// whenever the segment has room for it already, and otherwise when the
    /// region lets the segment grow. When it is not, the segment carries what
    /// it carried before.
    pub fn save(&mut self, bytes: &[u8]) -> (saved: bool)
        ensures
            saved ==> final(self).held() == bytes@,
            !saved ==> final(self).held() == old(self).held(),
            8 + bytes@.len() <= old(self).capacity() ==> saved,
            final(self).capacity() >= old(self).capacity(),
    {
        let held = self.segment.pages();
        let size: u128 = held as u128 * 65536u128;
        let need: u128 = 8u128 + bytes.len() as u128;
        if need > size {
            let pages: u128 = (need - size + 65535u128) / 65536u128;
            if pages > u64::MAX as u128 {
                return false;
            }
            if !self.segment.grow(pages as u64) {
                return false;
            }
        }
        let ghost before = self.segment.contents();
        assert(before.len() >= need);
        let len: u64 = bytes.len() as u64;
        let header = u64_to_le_bytes(len);
        proof {
            lemma_auto_spec_u64_to_from_le_bytes();
        }
        let wrote_header = self.segment.write(0, header.as_slice());
        let ghost middle = self.segment.contents();
        let wrote_bytes = self.segment.write(8, bytes);
        proof {
            let after = self.segment.contents();
            assert(after.subrange(0, 8) =~= u64_bytes(len));
            assert(after.subrange(8, 8 + len) =~= bytes@);
        }
        wrote_header && wrote_bytes
    }
}

/// Opens the region: a store of six empty collections on the segments 0 to
/// 5, and the snapshot segment with whatever the region carried in it.
pub fn open_region() -> (parts: (Store, SnapshotSegment))
    ensures
        parts.0.wf(),
        forall|c: Collection| #[trigger] parts.0.contents(c) == no_entries(),
{
    let mut allocator = RegionAllocator::new();
    let store = Store::on(&mut allocator);
    let segment = allocator.segment(SNAPSHOT_SEGMENT);
    (store, SnapshotSegment::new(segment))
}

/// Writes the snapshot of the store into the snapshot segment. Says whether
/// it was written: it is whenever the segment has room for the eight bytes of
/// the length and the store's snapshot already, and otherwise when the region
/// lets the segment grow. The store is not changed, and the segment never
/// loses room.
pub fn save_snapshot(store: &Store, carrier: &mut SnapshotSegment) -> (saved: bool)
    requires
        store.wf(),
    ensures
        saved ==> is_snapshot_of(final(carrier).held(), *store),
        !saved ==> final(carrier).held() == old(carrier).held(),
        forall|snapshot: Seq<u8>|
            #[trigger] is_snapshot_of(snapshot, *store) && 8 + snapshot.len() <= old(
                carrier,
            ).capacity() ==> saved,
        final(carrier).capacity() >= old(carrier).capacity(),
{
    let bytes = write_snapshot(store);
    proof {
        assert forall|snapshot: Seq<u8>| #[trigger]
            is_snapshot_of(snapshot, *store) implies snapshot == bytes@ by {
            law_snapshot_unique(*store, snapshot, bytes@);
        }
    }
    carrier.save(bytes.as_slice())
}

/// Reads the snapshot that the segment carries into the store. A segment
/// that carries nothing restores nothing.
pub fn restore_snapshot(store: &mut Store, carrier: &SnapshotSegment) -> (report: RestoreReport)
    requires
        old(store).wf(),
    ensures
        final(store).wf(),
        final(store).all_contents() == restored(
            carrier.held(),
            old(store).all_contents(),
        ).collections,
        report.stored == restored(carrier.held(), old(store).all_contents()).stored,
        report.complete == restored(carrier.held(), old(store).all_contents()).complete,
{
    let bytes = carrier.load();
    read_snapshot(store, bytes.as_slice())
}

} // verus!
