//! The ring-buffer cursor: tracks the `head` (write) and `tail` (commit/read)
//! positions of the index ring and enforces the non-wraparound invariant.
//!
//! The ring sacrifices one slot: `head` may never advance onto `tail`, so a
//! ring of `capacity` slots holds at most `capacity - 1` events. That keeps
//! "full" (`next(head) == tail`) distinguishable from "empty"
//! (`head == tail`) without a separate count field.

use vstd::prelude::*;

verus! {

/// Ring buffer cursor tracking the write (head) and commit (tail) positions.
pub struct Cursor {
    head: usize,
    tail: usize,
    capacity: usize,
}

impl Cursor {
    /// The write position: the next slot to write into.
    pub closed spec fn spec_head(&self) -> int {
        self.head as int
    }

    /// The commit/read position: the oldest unread slot.
    pub closed spec fn spec_tail(&self) -> int {
        self.tail as int
    }

    /// The total number of slots in the ring.
    pub closed spec fn spec_capacity(&self) -> int {
        self.capacity as int
    }

    /// Well-formedness: at least two slots, and both positions inside the ring.
    pub open spec fn inv(&self) -> bool {
        &&& 2 <= self.spec_capacity()
        &&& 0 <= self.spec_head() < self.spec_capacity()
        &&& 0 <= self.spec_tail() < self.spec_capacity()
    }

    /// The number of events in the ring: `(head - tail + capacity) mod capacity`.
    pub open spec fn spec_len(&self) -> int {
        if self.spec_head() >= self.spec_tail() {
            self.spec_head() - self.spec_tail()
        } else {
            self.spec_capacity() - self.spec_tail() + self.spec_head()
        }
    }

    /// The ring is empty iff the two positions coincide.
    pub open spec fn spec_is_empty(&self) -> bool {
        self.spec_head() == self.spec_tail()
    }

    /// The position after `p`, wrapping around at `capacity`.
    pub open spec fn spec_next(&self, p: int) -> int {
        if p + 1 == self.spec_capacity() {
            0
        } else {
            p + 1
        }
    }

    /// The ring is full iff advancing `head` would land it on `tail`.
    pub open spec fn spec_is_full(&self) -> bool {
        self.spec_next(self.spec_head()) == self.spec_tail()
    }

    /// Create a cursor for a ring with `capacity` event slots, both positions
    /// at zero.
    pub fn new(capacity: usize) -> (r: Cursor)
        requires
            capacity >= 2,
        ensures
            r.inv(),
            r.spec_head() == 0,
            r.spec_tail() == 0,
            r.spec_capacity() == capacity,
    {
        Cursor { head: 0, tail: 0, capacity }
    }

    /// Create a cursor sized to fill the index ring region.
    pub fn for_index_ring() -> (r: Cursor)
        ensures
            r.inv(),
            r.spec_head() == 0,
            r.spec_tail() == 0,
            r.spec_capacity() == crate::journal::INDEX_RING_CAPACITY,
    {
        Cursor::new(crate::journal::INDEX_RING_CAPACITY)
    }

    /// True iff the ring is full: one more write would wrap onto `tail`.
    pub fn is_full(&self) -> (r: bool)
        requires
            self.inv(),
        ensures
            r == self.spec_is_full(),
    {
        self.next_pos(self.head) == self.tail
    }

    /// True iff the ring is empty.
    pub fn is_empty(&self) -> (r: bool)
        requires
            self.inv(),
        ensures
            r == self.spec_is_empty(),
    {
        self.head == self.tail
    }

    /// The number of events currently in the ring, always at most
    /// `capacity - 1`.
    pub fn len(&self) -> (r: usize)
        requires
            self.inv(),
        ensures
            r == self.spec_len(),
            0 <= r <= self.spec_capacity() - 1,
    {
        if self.head >= self.tail {
            self.head - self.tail
        } else {
            self.capacity - self.tail + self.head
        }
    }

    /// The current head (write) position.
    pub fn head(&self) -> (r: usize)
        ensures
            r == self.spec_head(),
    {
        self.head
    }

    /// The current tail (read/commit) position.
    pub fn tail(&self) -> (r: usize)
        ensures
            r == self.spec_tail(),
    {
        self.tail
    }

    /// The ring capacity (total slots).
    pub fn capacity(&self) -> (r: usize)
        ensures
            r == self.spec_capacity(),
    {
        self.capacity
    }

    /// Advance the head pointer by one slot.
    ///
    /// Returns the slot index claimed for writing, or `None` iff the ring is
    /// full. A full ring is left untouched: `head` never wraps onto `tail`.
    pub fn advance_head(&mut self) -> (r: Option<usize>)
        requires
            old(self).inv(),
        ensures
            final(self).inv(),
            final(self).spec_capacity() == old(self).spec_capacity(),
            final(self).spec_tail() == old(self).spec_tail(),
            old(self).spec_is_full() ==> r == None::<usize> && *final(self) == *old(self),
            !old(self).spec_is_full() ==> {
                &&& r == Some(old(self).spec_head() as usize)
                &&& final(self).spec_head() == old(self).spec_next(old(self).spec_head())
                &&& final(self).spec_len() == old(self).spec_len() + 1
            },
    {
        if self.is_full() {
            return None;
        }
        let slot = self.head;
        self.head = self.next_pos(self.head);
        Some(slot)
    }

    /// Advance the tail pointer by one slot, releasing the oldest event.
    ///
    /// Returns the slot index released, or `None` iff the ring is empty.
    pub fn advance_tail(&mut self) -> (r: Option<usize>)
        requires
            old(self).inv(),
        ensures
            final(self).inv(),
            final(self).spec_capacity() == old(self).spec_capacity(),
            final(self).spec_head() == old(self).spec_head(),
            old(self).spec_is_empty() ==> r == None::<usize> && *final(self) == *old(self),
            !old(self).spec_is_empty() ==> {
                &&& r == Some(old(self).spec_tail() as usize)
                &&& final(self).spec_tail() == old(self).spec_next(old(self).spec_tail())
                &&& final(self).spec_len() == old(self).spec_len() - 1
            },
    {
        if self.is_empty() {
            return None;
        }
        let slot = self.tail;
        self.tail = self.next_pos(self.tail);
        Some(slot)
    }

    /// The next position with wrap-around.
    fn next_pos(&self, pos: usize) -> (r: usize)
        requires
            self.inv(),
            pos < self.spec_capacity(),
        ensures
            r == self.spec_next(pos as int),
    {
        if pos + 1 == self.capacity {
            0
        } else {
            pos + 1
        }
    }
}

/// The ring invariant, as one statement: a well-formed cursor keeps both
/// positions inside the ring, holds between `0` and `capacity - 1` events,
/// is empty exactly when the length is zero, and is full exactly when the
/// length is `capacity - 1` — so an `advance_head` that returns a slot can
/// never make `head` wrap onto `tail`.
pub proof fn lemma_cursor_invariant(c: Cursor)
    requires
        c.inv(),
    ensures
        0 <= c.spec_len() <= c.spec_capacity() - 1,
        c.spec_is_empty() <==> c.spec_len() == 0,
        c.spec_is_full() <==> c.spec_len() == c.spec_capacity() - 1,
        !(c.spec_is_empty() && c.spec_is_full()),
{
}

} // verus!
