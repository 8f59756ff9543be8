//! The sequencer engine: turns received packets into a well-ordered,
//! persisted sequence of event atoms.
//!
//! Each packet carries a 32-byte header laid out like an event atom followed
//! by the payload over which the header's checksum is computed. Handling a
//! packet claims a blob slice, stores the raw bytes there, validates size and
//! checksum, assigns the next Lamport timestamp, and commits the stored atom
//! at the cursor's head slot. Invalid packets and backpressure are dropped
//! with an error-counter increment and no other state change to the index
//! ring: a packet is committed fully or not at all.
//!
//! The kernel-facing ingress (socket, completion ring, IPC wakeups) lives
//! outside this crate and hands packets in as plain byte slices.

use vstd::prelude::*;
use vstd::slice::slice_subrange;
use crate::cursor::Cursor;
use crate::event::{CausalEvent, EVENT_SIZE, spec_event_from_bytes};
use crate::journal::{Journal, INDEX_RING_CAPACITY};

verus! {

/// Maximum packet size accepted from the network.
pub const MAX_PACKET_SIZE: usize = 65535;

/// Number of concurrent receive operations an ingress loop keeps in flight.
pub const PIPELINE_DEPTH: usize = 16;

/// Configuration for the ingress event loop.
pub struct EventLoopConfig {
    /// The UDP endpoint to listen on.
    pub bind_addr: String,
    /// Submission-queue depth of the kernel completion ring.
    pub ring_depth: u32,
}

impl Default for EventLoopConfig {
    /// The default endpoint and ring depth.
    fn default() -> (r: EventLoopConfig)
        ensures
            r.bind_addr@ == "0.0.0.0:9000"@,
            r.ring_depth == 256,
    {
        EventLoopConfig { bind_addr: "0.0.0.0:9000".to_owned(), ring_depth: 256 }
    }
}

/// The CRC-32 checksum of a byte sequence, as `crc32fast` computes it: a
/// pure function of the bytes alone.
pub uninterp spec fn crc32_of(data: Seq<u8>) -> u32;

/// Relies on `crc32fast::hash`: computes the CRC-32 checksum of the slice, a
/// deterministic function of the bytes alone.
#[verifier::external_body]
fn crc32(data: &[u8]) -> (r: u32)
    ensures
        r == crc32_of(data@),
{
    crc32fast::hash(data)
}

/// The outcome of handling one received packet.
#[derive(Debug, Clone, Copy, PartialEq, Eq, Structural)]
pub enum CommitOutcome {
    /// The packet was validated and its atom committed at this index-ring
    /// slot.
    Committed(usize),
    /// The packet was shorter than the 32-byte header: dropped.
    TooShort,
    /// The header checksum did not match the payload: dropped.
    ChecksumMismatch,
    /// The ring was full: dropped as backpressure.
    RingFull,
}

/// The header of a packet: its first 32 bytes read as an event atom.
pub open spec fn spec_header(packet: Seq<u8>) -> CausalEvent {
    spec_event_from_bytes(packet.subrange(0, EVENT_SIZE as int))
}

/// The payload of a packet: everything after the 32-byte header.
pub open spec fn spec_payload(packet: Seq<u8>) -> Seq<u8> {
    packet.subrange(EVENT_SIZE as int, packet.len() as int)
}

/// A packet passes validation iff it has a full header and the header's
/// checksum matches the payload.
pub open spec fn packet_valid(packet: Seq<u8>) -> bool {
    &&& packet.len() >= EVENT_SIZE
    &&& crc32_of(spec_payload(packet)) == spec_header(packet).checksum
}

/// The atom stored for a packet: the assigned timestamp, the header's
/// identifiers and checksum, the claimed blob offset, and cleared flags.
pub open spec fn stored_atom(packet: Seq<u8>, ts: u64, offset: int) -> CausalEvent {
    CausalEvent {
        lamport_ts: ts,
        node_id: spec_header(packet).node_id,
        stream_id: spec_header(packet).stream_id,
        flags: 0u16,
        payload_offset: offset as u64,
        checksum: spec_header(packet).checksum,
    }
}

/// The sequencer engine: the journal, the ring cursor, the rolling blob
/// offset, and the process-wide counters.
pub struct Sequencer {
    journal: Journal,
    cursor: Cursor,
    next_blob_offset: usize,
    lamport_counter: u64,
    events_processed: u64,
    bytes_processed: u64,
    errors: u64,
}

impl Sequencer {
    /// The journal this sequencer writes to.
    pub closed spec fn spec_journal(&self) -> Journal {
        self.journal
    }

    /// The ring cursor.
    pub closed spec fn spec_cursor(&self) -> Cursor {
        self.cursor
    }

    /// The next blob-relative offset a packet will be received at.
    pub closed spec fn spec_next_blob_offset(&self) -> int {
        self.next_blob_offset as int
    }

    /// The Lamport clock: the timestamp most recently assigned.
    pub closed spec fn spec_lamport(&self) -> u64 {
        self.lamport_counter
    }

    /// Number of packets committed.
    pub closed spec fn spec_events_processed(&self) -> u64 {
        self.events_processed
    }

    /// Number of bytes of committed packets.
    pub closed spec fn spec_bytes_processed(&self) -> u64 {
        self.bytes_processed
    }

    /// Number of packets dropped (short, bad checksum, or backpressure).
    pub closed spec fn spec_errors(&self) -> u64 {
        self.errors
    }

    /// The index-ring slot holding the `k`-th oldest uncommitted event:
    /// `(tail + k) mod capacity`.
    pub open spec fn slot_at(&self, k: int) -> int {
        if self.spec_cursor().spec_tail() + k < self.spec_cursor().spec_capacity() {
            self.spec_cursor().spec_tail() + k
        } else {
            self.spec_cursor().spec_tail() + k - self.spec_cursor().spec_capacity()
        }
    }

    /// The timestamp of the `k`-th oldest event in the active window.
    pub open spec fn window_ts(&self, k: int) -> u64 {
        self.spec_journal().event_at(self.slot_at(k)).lamport_ts
    }

    /// Commit monotonicity: scanning the active window in slot order from
    /// `tail`, timestamps are strictly increasing, positive, and no larger
    /// than the Lamport clock.
    pub open spec fn ring_ordered(&self) -> bool {
        &&& forall|k1: int, k2: int|
            #![trigger self.window_ts(k1), self.window_ts(k2)]
            0 <= k1 < k2 < self.spec_cursor().spec_len() ==> self.window_ts(k1)
                < self.window_ts(k2)
        &&& forall|k: int|
            0 <= k < self.spec_cursor().spec_len() ==> 0 < #[trigger] self.window_ts(k)
                <= self.spec_lamport()
    }

    /// Well-formedness of the whole engine.
    pub open spec fn inv(&self) -> bool {
        &&& self.spec_journal().inv()
        &&& self.spec_cursor().inv()
        &&& self.spec_cursor().spec_capacity() <= INDEX_RING_CAPACITY
        &&& MAX_PACKET_SIZE <= self.spec_journal().spec_blob_capacity()
        &&& 0 <= self.spec_next_blob_offset() <= self.spec_journal().spec_blob_capacity()
        &&& self.ring_ordered()
    }

    /// The blob offset the next packet will be stored at: the rolling offset,
    /// wrapped to zero when a full-size packet would no longer fit.
    pub open spec fn spec_claimed_offset(&self) -> int {
        if self.spec_next_blob_offset() + MAX_PACKET_SIZE
            <= self.spec_journal().spec_blob_capacity() {
            self.spec_next_blob_offset()
        } else {
            0
        }
    }

    /// Build a sequencer over a journal, with a fresh cursor of `capacity`
    /// slots, the Lamport clock at zero, and all counters at zero.
    pub fn new(journal: Journal, capacity: usize) -> (r: Sequencer)
        requires
            journal.inv(),
            2 <= capacity <= INDEX_RING_CAPACITY,
            MAX_PACKET_SIZE <= journal.spec_blob_capacity(),
        ensures
            r.inv(),
            r.spec_journal() == journal,
            r.spec_cursor().spec_head() == 0,
            r.spec_cursor().spec_tail() == 0,
            r.spec_cursor().spec_capacity() == capacity,
            r.spec_next_blob_offset() == 0,
            r.spec_lamport() == 0,
            r.spec_events_processed() == 0,
            r.spec_bytes_processed() == 0,
            r.spec_errors() == 0,
    {
        Sequencer {
            journal,
            cursor: Cursor::new(capacity),
            next_blob_offset: 0,
            lamport_counter: 0,
            events_processed: 0,
            bytes_processed: 0,
            errors: 0,
        }
    }

    /// Handle one received packet: store its bytes in the claimed blob
    /// slice, validate, stamp, and commit.
    ///
    /// Whatever the outcome, the packet consumes one blob slice: the rolling
    /// offset advances by `MAX_PACKET_SIZE` (wrapping first if a full-size
    /// packet would not fit), the packet's bytes land at the claimed offset,
    /// and no other blob byte changes. A packet is committed fully or not at
    /// all: on every drop the index ring, the commit counters and the cursor
    /// are untouched and the error counter increments.
    pub fn handle_packet(&mut self, packet: &[u8]) -> (r: CommitOutcome)
        requires
            old(self).inv(),
            packet@.len() <= MAX_PACKET_SIZE,
            old(self).spec_lamport() < u64::MAX,
            old(self).spec_events_processed() < u64::MAX,
            old(self).spec_bytes_processed() + packet@.len() <= u64::MAX,
            old(self).spec_errors() < u64::MAX,
        ensures
            final(self).inv(),
            // The journal file and ring geometry never change.
            final(self).spec_journal().spec_size() == old(self).spec_journal().spec_size(),
            final(self).spec_cursor().spec_capacity() == old(self).spec_cursor().spec_capacity(),
            final(self).spec_cursor().spec_tail() == old(self).spec_cursor().spec_tail(),
            // The packet consumes one blob slice, whatever the outcome.
            final(self).spec_next_blob_offset() == old(self).spec_claimed_offset()
                + MAX_PACKET_SIZE,
            final(self).spec_journal().blob_bytes().len() == old(self).spec_journal().blob_bytes().len(),
            forall|i: int|
                0 <= i < old(self).spec_journal().spec_blob_capacity() ==> final(self).spec_journal().blob_bytes()[i] == (if old(self).spec_claimed_offset() <= i < old(self).spec_claimed_offset() + packet@.len() {
                    packet@[i - old(self).spec_claimed_offset()]
                } else {
                    old(self).spec_journal().blob_bytes()[i]
                }),
            // Outcome case analysis.
            r == CommitOutcome::TooShort <==> packet@.len() < EVENT_SIZE,
            r == CommitOutcome::ChecksumMismatch <==> (packet@.len() >= EVENT_SIZE
                && !packet_valid(packet@)),
            r == CommitOutcome::RingFull <==> (packet_valid(packet@) && old(self).spec_cursor().spec_is_full()),
            r matches CommitOutcome::Committed(slot) <==> (packet_valid(packet@) && !old(self).spec_cursor().spec_is_full()),
            // The Lamport clock advances exactly on validated packets.
            final(self).spec_lamport() == (if packet_valid(packet@) {
                old(self).spec_lamport() + 1
            } else {
                old(self).spec_lamport() as int
            }),
            // Commit: the stored atom sits at the old head slot, the head
            // advances, the counters advance; every other slot is untouched.
            (packet_valid(packet@) && !old(self).spec_cursor().spec_is_full()) ==> {
                let slot = old(self).spec_cursor().spec_head();
                &&& r == CommitOutcome::Committed(slot as usize)
                &&& final(self).spec_cursor().spec_head() == old(self).spec_cursor().spec_next(
                    slot,
                )
                &&& final(self).spec_cursor().spec_len() == old(self).spec_cursor().spec_len() + 1
                &&& final(self).spec_journal().event_at(slot) == stored_atom(
                    packet@,
                    (old(self).spec_lamport() + 1) as u64,
                    old(self).spec_claimed_offset(),
                )
                &&& 0 <= old(self).spec_claimed_offset()
                &&& old(self).spec_claimed_offset() + MAX_PACKET_SIZE <= old(self).spec_journal().spec_blob_capacity()
                &&& forall|s2: int|
                    0 <= s2 < INDEX_RING_CAPACITY && s2 != slot ==> final(self).spec_journal().slot_bytes(s2) == old(self).spec_journal().slot_bytes(s2)
                &&& final(self).spec_events_processed() == old(self).spec_events_processed() + 1
                &&& final(self).spec_bytes_processed() == old(self).spec_bytes_processed()
                    + packet@.len()
                &&& final(self).spec_errors() == old(self).spec_errors()
            },
            // Drop: no commit happened; the index ring, the cursor and the
            // commit counters are exactly as before, and the error counter
            // increments.
            !(packet_valid(packet@) && !old(self).spec_cursor().spec_is_full()) ==> {
                &&& final(self).spec_cursor() == old(self).spec_cursor()
                &&& forall|s2: int|
                    0 <= s2 < INDEX_RING_CAPACITY ==> final(self).spec_journal().slot_bytes(s2)
                        == old(self).spec_journal().slot_bytes(s2)
                &&& final(self).spec_events_processed() == old(self).spec_events_processed()
                &&& final(self).spec_bytes_processed() == old(self).spec_bytes_processed()
                &&& final(self).spec_errors() == old(self).spec_errors() + 1
            },
    {
        let len = packet.len();
        let blob_cap = self.journal.blob_capacity();
        let offset: usize = if self.next_blob_offset <= blob_cap - MAX_PACKET_SIZE {
            self.next_blob_offset
        } else {
            0
        };
        self.next_blob_offset = offset + MAX_PACKET_SIZE;
        self.journal.write_payload(offset, packet);
        if len < EVENT_SIZE {
            self.errors = self.errors + 1;
            proof {
                self.lemma_untouched_window(*old(self));
            }
            return CommitOutcome::TooShort;
        }
        let header = CausalEvent::from_bytes(slice_subrange(packet, 0, EVENT_SIZE));
        let computed = crc32(slice_subrange(packet, EVENT_SIZE, len));
        if computed != header.checksum {
            self.errors = self.errors + 1;
            proof {
                self.lemma_untouched_window(*old(self));
            }
            return CommitOutcome::ChecksumMismatch;
        }
        self.lamport_counter = self.lamport_counter + 1;
        let ts = self.lamport_counter;
        let claimed = self.cursor.advance_head();
        match claimed {
            None => {
                self.errors = self.errors + 1;
                proof {
                    self.lemma_untouched_window(*old(self));
                }
                CommitOutcome::RingFull
            },
            Some(slot) => {
                let ev = CausalEvent::new(
                    ts,
                    header.node_id,
                    header.stream_id,
                    offset as u64,
                    header.checksum,
                );
                self.journal.write_event_at(slot, &ev);
                self.events_processed = self.events_processed + 1;
                self.bytes_processed = self.bytes_processed + len as u64;
                proof {
                    self.lemma_commit_preserves_order(*old(self), slot as int);
                }
                CommitOutcome::Committed(slot)
            },
        }
    }

    /// A state whose cursor and index-ring slots are exactly those of a
    /// well-formed predecessor keeps the window ordering; the Lamport clock
    /// may only have grown.
    proof fn lemma_untouched_window(&self, prev: Sequencer)
        requires
            prev.inv(),
            self.spec_cursor() == prev.spec_cursor(),
            forall|s2: int|
                0 <= s2 < INDEX_RING_CAPACITY ==> self.spec_journal().slot_bytes(s2)
                    == prev.spec_journal().slot_bytes(s2),
            prev.spec_lamport() <= self.spec_lamport(),
        ensures
            self.ring_ordered(),
    {
        crate::cursor::lemma_cursor_invariant(prev.spec_cursor());
        assert forall|k: int| 0 <= k < self.spec_cursor().spec_len() implies self.window_ts(k)
            == prev.window_ts(k) && 0 < prev.window_ts(k) <= prev.spec_lamport() by {
            assert(0 <= self.slot_at(k) < INDEX_RING_CAPACITY);
            assert(self.spec_journal().slot_bytes(self.slot_at(k)) == prev.spec_journal(
            ).slot_bytes(self.slot_at(k)));
        }
    }

    /// After a commit at the old head, the active window is still strictly
    /// increasing: every older slot is untouched and the new atom carries a
    /// strictly larger timestamp.
    proof fn lemma_commit_preserves_order(&self, prev: Sequencer, slot: int)
        requires
            prev.inv(),
            !prev.spec_cursor().spec_is_full(),
            slot == prev.spec_cursor().spec_head(),
            self.spec_cursor().spec_capacity() == prev.spec_cursor().spec_capacity(),
            self.spec_cursor().spec_tail() == prev.spec_cursor().spec_tail(),
            self.spec_cursor().inv(),
            self.spec_cursor().spec_len() == prev.spec_cursor().spec_len() + 1,
            self.spec_journal().inv(),
            self.spec_journal().spec_size() == prev.spec_journal().spec_size(),
            forall|s2: int|
                0 <= s2 < INDEX_RING_CAPACITY && s2 != slot ==> self.spec_journal().slot_bytes(s2)
                    == prev.spec_journal().slot_bytes(s2),
            self.spec_cursor().spec_capacity() <= INDEX_RING_CAPACITY,
            prev.spec_lamport() < u64::MAX,
            self.spec_lamport() == prev.spec_lamport() + 1,
            self.spec_journal().event_at(slot).lamport_ts == prev.spec_lamport() + 1,
        ensures
            self.ring_ordered(),
    {
        let n = prev.spec_cursor().spec_len();
        assert forall|k: int| 0 <= k < n implies self.slot_at(k) == prev.slot_at(k) && self.slot_at(
            k,
        ) != slot && 0 <= self.slot_at(k) < INDEX_RING_CAPACITY by {
            crate::cursor::lemma_cursor_invariant(prev.spec_cursor());
        }
        assert(self.slot_at(n) == slot);
        assert forall|k: int| 0 <= k < n implies self.window_ts(k) == prev.window_ts(k) by {
            assert(self.spec_journal().slot_bytes(self.slot_at(k)) == prev.spec_journal(
            ).slot_bytes(prev.slot_at(k)));
        }
        assert(self.window_ts(n) == prev.spec_lamport() + 1);
        assert forall|k1: int, k2: int|
            #![trigger self.window_ts(k1), self.window_ts(k2)]
            0 <= k1 < k2 < self.spec_cursor().spec_len() implies self.window_ts(k1)
            < self.window_ts(k2) by {
            if k2 < n {
                assert(prev.window_ts(k1) < prev.window_ts(k2));
            } else {
                assert(k2 == n);
                if k1 < n {
                    assert(prev.window_ts(k1) <= prev.spec_lamport());
                }
            }
        }
        assert forall|k: int| 0 <= k < self.spec_cursor().spec_len() implies 0
            < #[trigger] self.window_ts(k) <= self.spec_lamport() by {
            if k < n {
                assert(prev.window_ts(k) <= prev.spec_lamport());
            }
        }
    }

    /// Release the oldest committed event: advance the tail by one slot.
    /// Returns the slot released, or `None` iff the window is empty. The
    /// journal is untouched.
    pub fn release_oldest(&mut self) -> (r: Option<usize>)
        requires
            old(self).inv(),
        ensures
            final(self).inv(),
            final(self).spec_journal() == old(self).spec_journal(),
            final(self).spec_cursor().spec_capacity() == old(self).spec_cursor().spec_capacity(),
            final(self).spec_cursor().spec_head() == old(self).spec_cursor().spec_head(),
            final(self).spec_lamport() == old(self).spec_lamport(),
            final(self).spec_events_processed() == old(self).spec_events_processed(),
            final(self).spec_bytes_processed() == old(self).spec_bytes_processed(),
            final(self).spec_errors() == old(self).spec_errors(),
            final(self).spec_next_blob_offset() == old(self).spec_next_blob_offset(),
            old(self).spec_cursor().spec_is_empty() ==> r == None::<usize> && final(self).spec_cursor() == old(self).spec_cursor(),
            !old(self).spec_cursor().spec_is_empty() ==> {
                &&& r == Some(old(self).spec_cursor().spec_tail() as usize)
                &&& final(self).spec_cursor().spec_tail() == old(self).spec_cursor().spec_next(
                    old(self).spec_cursor().spec_tail(),
                )
                &&& final(self).spec_cursor().spec_len() == old(self).spec_cursor().spec_len() - 1
            },
    {
        let r = self.cursor.advance_tail();
        proof {
            if !old(self).spec_cursor().spec_is_empty() {
                let n = self.spec_cursor().spec_len();
                assert forall|k: int| 0 <= k < n implies self.window_ts(k) == old(self).window_ts(
                    k + 1,
                ) by {
                    assert(self.slot_at(k) == old(self).slot_at(k + 1));
                }
            }
        }
        r
    }

    /// A read-only borrow of the journal, for range reads and payload reads.
    pub fn journal(&self) -> (r: &Journal)
        ensures
            *r == self.spec_journal(),
    {
        &self.journal
    }

    /// Snapshot the telemetry counters and cursor positions:
    /// `(events_processed, bytes_processed, head, tail)`.
    pub fn snapshot_counters(&self) -> (r: (u64, u64, usize, usize))
        ensures
            r.0 == self.spec_events_processed(),
            r.1 == self.spec_bytes_processed(),
            r.2 == self.spec_cursor().spec_head(),
            r.3 == self.spec_cursor().spec_tail(),
    {
        (self.events_processed, self.bytes_processed, self.cursor.head(), self.cursor.tail())
    }

    /// The number of packets dropped so far.
    pub fn errors(&self) -> (r: u64)
        ensures
            r == self.spec_errors(),
    {
        self.errors
    }

    /// The timestamp most recently assigned by the Lamport clock.
    pub fn lamport(&self) -> (r: u64)
        ensures
            r == self.spec_lamport(),
    {
        self.lamport_counter
    }

    /// The number of events currently in the active window.
    pub fn window_len(&self) -> (r: usize)
        requires
            self.inv(),
        ensures
            r == self.spec_cursor().spec_len(),
    {
        self.cursor.len()
    }
}

} // verus!
