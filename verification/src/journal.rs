//! The journal: one contiguous memory-mapped file split into two regions.
//!
//! - Index ring: bytes `[0, INDEX_RING_SIZE)`, holding fixed-size serialized
//!   events in slot order.
//! - Blob region: bytes `[INDEX_RING_SIZE, size)`, holding raw payload bytes
//!   addressed by an event's `payload_offset` (blob-relative).
//!
//! The map itself is created by the caller (from a pre-allocated file, or
//! anonymously); the journal takes ownership and from then on every access
//! goes through contracts over the mapped byte sequence.

use vstd::prelude::*;
use crate::event::{CausalEvent, EVENT_SIZE, spec_event_bytes, spec_event_from_bytes,
    lemma_event_bytes_round_trip, spec_is_empty, is_empty_event};

verus! {

/// Default journal size: 100 GiB.
pub const DEFAULT_JOURNAL_SIZE: u64 = 100 * 1024 * 1024 * 1024;

/// Index ring size: 1 GiB.
pub const INDEX_RING_SIZE: usize = 1024 * 1024 * 1024;

/// Number of events that fit in the index ring.
pub const INDEX_RING_CAPACITY: usize = INDEX_RING_SIZE / EVENT_SIZE;

/// Declares memmap2's mutable memory map, so that a value of it can be held
/// and carried through verified code.
#[verifier::external_type_specification]
#[verifier::external_body]
pub struct ExMmapMut(memmap2::MmapMut);

/// The bytes held by a mutable memory map. The journal owns its map
/// exclusively for its lifetime, so these bytes change only through the
/// writes below.
pub uninterp spec fn map_bytes(m: memmap2::MmapMut) -> Seq<u8>;

/// Relies on `<memmap2::MmapMut as Deref<Target = [u8]>>`: the map presents
/// itself as one byte slice; this returns its length.
#[verifier::external_body]
fn map_len(m: &memmap2::MmapMut) -> (r: usize)
    ensures
        r == map_bytes(*m).len(),
{
    m.len()
}

/// Relies on `<memmap2::MmapMut as DerefMut<Target = [u8]>>`: writing a slice
/// into a range of the map replaces exactly those bytes and no others.
#[verifier::external_body]
fn map_write(m: &mut memmap2::MmapMut, offset: usize, data: &[u8])
    requires
        offset + data@.len() <= map_bytes(*old(m)).len(),
    ensures
        map_bytes(*final(m)).len() == map_bytes(*old(m)).len(),
        forall|i: int|
            0 <= i < map_bytes(*old(m)).len() ==> map_bytes(*final(m))[i] == (if offset <= i
                < offset + data@.len() {
                data@[i - offset]
            } else {
                map_bytes(*old(m))[i]
            }),
{
    m[offset..offset + data.len()].copy_from_slice(data);
}

/// Relies on `<memmap2::MmapMut as Deref<Target = [u8]>>`: reading a range of
/// the map yields exactly those bytes.
#[verifier::external_body]
fn map_read(m: &memmap2::MmapMut, offset: usize, len: usize) -> (r: Vec<u8>)
    requires
        offset + len <= map_bytes(*m).len(),
    ensures
        r@ == map_bytes(*m).subrange(offset as int, offset + len),
{
    m[offset..offset + len].to_vec()
}

/// Relies on `memmap2::MmapMut::flush`: synchronizes dirty mapped pages with
/// the backing storage; the mapped bytes themselves are untouched. Whether
/// the kernel accepts the flush depends on the backing file, so nothing is
/// promised of the outcome.
#[verifier::external_body]
fn map_flush(m: &memmap2::MmapMut) -> (r: bool)
{
    m.flush().is_ok()
}

/// Rejected journal configurations.
#[derive(Debug, Clone, Copy, PartialEq, Eq, Structural)]
pub enum JournalError {
    /// The mapped region is smaller than the index ring: there is no room
    /// for both regions.
    TooSmall,
}

/// The memory-mapped journal: an index ring of serialized events followed by
/// a blob region of raw payload bytes.
pub struct Journal {
    mmap: memmap2::MmapMut,
    size: usize,
}

impl Journal {
    /// The full mapped byte sequence.
    pub closed spec fn contents(&self) -> Seq<u8> {
        map_bytes(self.mmap)
    }

    /// The total size of the journal in bytes.
    pub closed spec fn spec_size(&self) -> int {
        self.size as int
    }

    /// Well-formedness: the recorded size matches the map and leaves room for
    /// the whole index ring.
    pub open spec fn inv(&self) -> bool {
        &&& self.contents().len() == self.spec_size()
        &&& INDEX_RING_SIZE <= self.spec_size()
    }

    /// The capacity of the blob region in bytes.
    pub open spec fn spec_blob_capacity(&self) -> int {
        self.spec_size() - INDEX_RING_SIZE
    }

    /// The bytes of the blob region.
    pub open spec fn blob_bytes(&self) -> Seq<u8> {
        self.contents().subrange(INDEX_RING_SIZE as int, self.spec_size())
    }

    /// The 32 bytes of an index-ring slot.
    pub open spec fn slot_bytes(&self, slot: int) -> Seq<u8> {
        self.contents().subrange(slot * EVENT_SIZE, slot * EVENT_SIZE + EVENT_SIZE)
    }

    /// The event stored at an index-ring slot.
    pub open spec fn event_at(&self, slot: int) -> CausalEvent {
        spec_event_from_bytes(self.slot_bytes(slot))
    }

    /// Take ownership of a mapped region and partition it into the index
    /// ring and the blob region.
    ///
    /// Fails iff the region is smaller than the index ring; the journal
    /// never resizes the map afterwards.
    pub fn from_map(mmap: memmap2::MmapMut) -> (r: Result<Journal, JournalError>)
        ensures
            r is Ok <==> map_bytes(mmap).len() >= INDEX_RING_SIZE,
            r is Err ==> r == Result::<Journal, JournalError>::Err(JournalError::TooSmall),
            r matches Ok(j) ==> j.inv() && j.contents() == map_bytes(mmap),
    {
        let len = map_len(&mmap);
        if len < INDEX_RING_SIZE {
            return Err(JournalError::TooSmall);
        }
        Ok(Journal { mmap, size: len })
    }

    /// The total journal size in bytes.
    pub fn size(&self) -> (r: u64)
        requires
            self.inv(),
        ensures
            r == self.spec_size(),
    {
        self.size as u64
    }

    /// The blob region capacity in bytes.
    pub fn blob_capacity(&self) -> (r: usize)
        requires
            self.inv(),
        ensures
            r == self.spec_blob_capacity(),
    {
        self.size - INDEX_RING_SIZE
    }

    /// Store an event's 32 bytes at `slot * 32` in the index ring. Every
    /// other slot, and the whole blob region, is untouched.
    pub fn write_event_at(&mut self, slot: usize, event: &CausalEvent)
        requires
            old(self).inv(),
            slot < INDEX_RING_CAPACITY,
        ensures
            final(self).inv(),
            final(self).spec_size() == old(self).spec_size(),
            final(self).event_at(slot as int) == *event,
            final(self).slot_bytes(slot as int) == spec_event_bytes(*event),
            forall|s2: int|
                0 <= s2 < INDEX_RING_CAPACITY && s2 != slot ==> final(self).slot_bytes(s2)
                    == old(self).slot_bytes(s2),
            final(self).blob_bytes() == old(self).blob_bytes(),
    {
        let bytes = event.to_bytes();
        proof {
            assert(slot * EVENT_SIZE + EVENT_SIZE <= INDEX_RING_CAPACITY * EVENT_SIZE);
            assert(INDEX_RING_CAPACITY * EVENT_SIZE == INDEX_RING_SIZE);
        }
        map_write(&mut self.mmap, slot * EVENT_SIZE, bytes.as_slice());
        proof {
            lemma_event_bytes_round_trip(*event);
            assert(self.slot_bytes(slot as int) =~= spec_event_bytes(*event));
            assert forall|s2: int|
                0 <= s2 < INDEX_RING_CAPACITY && s2 != slot implies self.slot_bytes(s2) == old(
                self,
            ).slot_bytes(s2) by {
                assert(self.slot_bytes(s2) =~= old(self).slot_bytes(s2));
            }
            assert(self.blob_bytes() =~= old(self).blob_bytes());
        }
    }

    /// Load the event stored at `slot` in the index ring.
    pub fn read_event_at(&self, slot: usize) -> (r: CausalEvent)
        requires
            self.inv(),
            slot < INDEX_RING_CAPACITY,
        ensures
            r == self.event_at(slot as int),
    {
        proof {
            assert(slot * EVENT_SIZE + EVENT_SIZE <= INDEX_RING_CAPACITY * EVENT_SIZE);
            assert(INDEX_RING_CAPACITY * EVENT_SIZE == INDEX_RING_SIZE);
        }
        let bytes = map_read(&self.mmap, slot * EVENT_SIZE, EVENT_SIZE);
        CausalEvent::from_bytes(bytes.as_slice())
    }

    /// Write raw payload bytes at a blob-relative offset. The index ring and
    /// the rest of the blob region are untouched.
    pub fn write_payload(&mut self, offset: usize, data: &[u8])
        requires
            old(self).inv(),
            offset + data@.len() <= old(self).spec_blob_capacity(),
        ensures
            final(self).inv(),
            final(self).spec_size() == old(self).spec_size(),
            final(self).blob_bytes().len() == old(self).blob_bytes().len(),
            forall|i: int|
                0 <= i < old(self).spec_blob_capacity() ==> final(self).blob_bytes()[i] == (
                if offset <= i < offset + data@.len() {
                    data@[i - offset]
                } else {
                    old(self).blob_bytes()[i]
                }),
            forall|s2: int|
                0 <= s2 < INDEX_RING_CAPACITY ==> final(self).slot_bytes(s2) == old(
                    self,
                ).slot_bytes(s2),
    {
        map_write(&mut self.mmap, INDEX_RING_SIZE + offset, data);
        proof {
            assert forall|s2: int|
                0 <= s2 < INDEX_RING_CAPACITY implies self.slot_bytes(s2) == old(
                self,
            ).slot_bytes(s2) by {
                assert(s2 * EVENT_SIZE + EVENT_SIZE <= INDEX_RING_CAPACITY * EVENT_SIZE);
                assert(INDEX_RING_CAPACITY * EVENT_SIZE == INDEX_RING_SIZE);
                assert(self.slot_bytes(s2) =~= old(self).slot_bytes(s2));
            }
        }
    }

    /// Read `len` raw payload bytes at a blob-relative offset.
    pub fn read_payload(&self, offset: usize, len: usize) -> (r: Vec<u8>)
        requires
            self.inv(),
            offset + len <= self.spec_blob_capacity(),
        ensures
            r@ == self.blob_bytes().subrange(offset as int, offset + len),
    {
        let r = map_read(&self.mmap, INDEX_RING_SIZE + offset, len);
        proof {
            assert(r@ =~= self.blob_bytes().subrange(offset as int, offset + len));
        }
        r
    }

    /// Flush dirty mapped pages to the backing file. Returns whether the
    /// kernel accepted the flush.
    pub fn flush(&self) -> bool {
        map_flush(&self.mmap)
    }

    /// The `(slot, event)` pairs of the slots in `[start, end)` whose stored
    /// event is not the all-zero empty marker, in slot order.
    pub open spec fn spec_range_events(&self, start: int, end: int) -> Seq<(usize, CausalEvent)>
        decreases end - start,
    {
        if start >= end {
            Seq::empty()
        } else if spec_is_empty(self.event_at(start)) {
            self.spec_range_events(start + 1, end)
        } else {
            seq![(start as usize, self.event_at(start))] + self.spec_range_events(start + 1, end)
        }
    }

    /// Read the events stored in slots `[slot_start, slot_end)`, skipping
    /// empty slots, each paired with its slot index.
    pub fn read_range(&self, slot_start: usize, slot_end: usize) -> (r: Vec<(usize, CausalEvent)>)
        requires
            self.inv(),
            slot_start <= slot_end <= INDEX_RING_CAPACITY,
        ensures
            r@ == self.spec_range_events(slot_start as int, slot_end as int),
    {
        let mut out: Vec<(usize, CausalEvent)> = Vec::new();
        let mut k = slot_start;
        while k < slot_end
            invariant
                self.inv(),
                slot_start <= k <= slot_end <= INDEX_RING_CAPACITY,
                out@ + self.spec_range_events(k as int, slot_end as int) == self.spec_range_events(
                    slot_start as int,
                    slot_end as int,
                ),
            decreases slot_end - k,
        {
            let ghost prev = out@;
            let ev = self.read_event_at(k);
            if !is_empty_event(&ev) {
                out.push((k, ev));
            }
            proof {
                if !spec_is_empty(self.event_at(k as int)) {
                    assert(out@ =~= prev + seq![(k, self.event_at(k as int))]);
                    assert(out@ + self.spec_range_events(k + 1, slot_end as int) =~= prev
                        + self.spec_range_events(k as int, slot_end as int));
                }
            }
            k = k + 1;
        }
        proof {
            assert(out@ =~= out@ + self.spec_range_events(slot_end as int, slot_end as int));
        }
        out
    }
}

} // verus!
