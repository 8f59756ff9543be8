//! The event atom: a fixed 32-byte value with a deterministic byte layout and
//! a total causal order on the key triple `(lamport_ts, node_id, stream_id)`.

use vstd::prelude::*;
use core::cmp::Ordering;

verus! {

/// Bit set in `flags` when the event marks a checkpoint.
pub const FLAG_CHECKPOINT: u16 = 0x1;

/// Size in bytes of the serialized form of a [`CausalEvent`].
pub const EVENT_SIZE: usize = 32;

/// The fundamental event atom of the sequencer.
///
/// Serialized form (32 bytes, little-endian):
///
/// | Offset | Size | Field            |
/// |--------|------|------------------|
/// | 0      | 8    | `lamport_ts`     |
/// | 8      | 4    | `node_id`        |
/// | 12     | 2    | `stream_id`      |
/// | 14     | 2    | `flags`          |
/// | 16     | 8    | `payload_offset` |
/// | 24     | 4    | `checksum`       |
/// | 28     | 4    | (pad, zero)      |
///
/// Events are ordered by the key triple `(lamport_ts, node_id, stream_id)`;
/// `payload_offset`, `checksum` and `flags` take no part in the order.
#[derive(Debug, Clone, Copy)]
pub struct CausalEvent {
    /// Lamport timestamp: the logical clock of causality.
    pub lamport_ts: u64,
    /// Node identifier: the observer that witnessed this event.
    pub node_id: u32,
    /// Stream identifier: the channel this event belongs to.
    pub stream_id: u16,
    /// Event flags (e.g. the checkpoint bit).
    pub flags: u16,
    /// Byte offset of the payload, relative to the blob region start.
    pub payload_offset: u64,
    /// CRC-32 checksum over the payload.
    pub checksum: u32,
}

/// The two events agree on the whole ordering key.
pub open spec fn key_eq(a: CausalEvent, b: CausalEvent) -> bool {
    &&& a.lamport_ts == b.lamport_ts
    &&& a.node_id == b.node_id
    &&& a.stream_id == b.stream_id
}

/// Lexicographic "less or equal" on the key triple.
pub open spec fn key_le(a: CausalEvent, b: CausalEvent) -> bool {
    ||| a.lamport_ts < b.lamport_ts
    ||| (a.lamport_ts == b.lamport_ts && a.node_id < b.node_id)
    ||| (a.lamport_ts == b.lamport_ts && a.node_id == b.node_id && a.stream_id <= b.stream_id)
}

/// Strict form of [`key_le`].
pub open spec fn key_lt(a: CausalEvent, b: CausalEvent) -> bool {
    key_le(a, b) && !key_eq(a, b)
}

/// The causal order on events, as a three-way comparison.
pub open spec fn spec_compare(a: CausalEvent, b: CausalEvent) -> Ordering {
    if key_eq(a, b) {
        Ordering::Equal
    } else if key_le(a, b) {
        Ordering::Less
    } else {
        Ordering::Greater
    }
}

impl CausalEvent {
    /// Construct an event with `flags = 0`.
    pub fn new(
        lamport_ts: u64,
        node_id: u32,
        stream_id: u16,
        payload_offset: u64,
        checksum: u32,
    ) -> (r: CausalEvent)
        ensures
            r == (CausalEvent {
                lamport_ts,
                node_id,
                stream_id,
                flags: 0u16,
                payload_offset,
                checksum,
            }),
    {
        CausalEvent { lamport_ts, node_id, stream_id, flags: 0, payload_offset, checksum }
    }

    /// Construct an event with explicit flags.
    pub fn with_flags(
        lamport_ts: u64,
        node_id: u32,
        stream_id: u16,
        payload_offset: u64,
        checksum: u32,
        flags: u16,
    ) -> (r: CausalEvent)
        ensures
            r == (CausalEvent { lamport_ts, node_id, stream_id, flags, payload_offset, checksum }),
    {
        CausalEvent { lamport_ts, node_id, stream_id, flags, payload_offset, checksum }
    }

    /// True iff the checkpoint flag is set.
    pub fn is_checkpoint(&self) -> (r: bool)
        ensures
            r == (self.flags & FLAG_CHECKPOINT != 0),
    {
        (self.flags & FLAG_CHECKPOINT) != 0
    }

    /// Size in bytes of the serialized event.
    pub fn size_bytes() -> (r: usize)
        ensures
            r == EVENT_SIZE,
            r == 32,
    {
        EVENT_SIZE
    }

    /// Three-way comparison in the causal order: lexicographic on the key
    /// triple `(lamport_ts, node_id, stream_id)`, ignoring every other field.
    pub fn compare(&self, other: &CausalEvent) -> (r: Ordering)
        ensures
            r == spec_compare(*self, *other),
    {
        if self.lamport_ts != other.lamport_ts {
            if self.lamport_ts < other.lamport_ts {
                Ordering::Less
            } else {
                Ordering::Greater
            }
        } else if self.node_id != other.node_id {
            if self.node_id < other.node_id {
                Ordering::Less
            } else {
                Ordering::Greater
            }
        } else if self.stream_id != other.stream_id {
            if self.stream_id < other.stream_id {
                Ordering::Less
            } else {
                Ordering::Greater
            }
        } else {
            Ordering::Equal
        }
    }
}

impl PartialEq for CausalEvent {
    /// Equality in the ordering sense: the key triples agree.
    fn eq(&self, other: &CausalEvent) -> (r: bool) {
        self.lamport_ts == other.lamport_ts && self.node_id == other.node_id
            && self.stream_id == other.stream_id
    }
}

impl vstd::std_specs::cmp::PartialEqSpecImpl for CausalEvent {
    open spec fn obeys_eq_spec() -> bool {
        true
    }

    open spec fn eq_spec(&self, other: &CausalEvent) -> bool {
        key_eq(*self, *other)
    }
}

impl Eq for CausalEvent {}

impl PartialOrd for CausalEvent {
    /// The causal order: always comparable.
    fn partial_cmp(&self, other: &CausalEvent) -> (r: Option<Ordering>) {
        Some(self.compare(other))
    }
}

impl vstd::std_specs::cmp::PartialOrdSpecImpl for CausalEvent {
    open spec fn obeys_partial_cmp_spec() -> bool {
        true
    }

    open spec fn partial_cmp_spec(&self, other: &CausalEvent) -> Option<Ordering> {
        Some(spec_compare(*self, *other))
    }
}

/// The two little-endian bytes of a `u16`.
pub open spec fn spec_u16_le(x: u16) -> Seq<u8> {
    seq![(x & 0xff) as u8, ((x >> 8) & 0xff) as u8]
}

/// The four little-endian bytes of a `u32`.
pub open spec fn spec_u32_le(x: u32) -> Seq<u8> {
    seq![
        (x & 0xff) as u8,
        ((x >> 8) & 0xff) as u8,
        ((x >> 16) & 0xff) as u8,
        ((x >> 24) & 0xff) as u8,
    ]
}

/// The eight little-endian bytes of a `u64`.
pub open spec fn spec_u64_le(x: u64) -> Seq<u8> {
    seq![
        (x & 0xff) as u8,
        ((x >> 8) & 0xff) as u8,
        ((x >> 16) & 0xff) as u8,
        ((x >> 24) & 0xff) as u8,
        ((x >> 32) & 0xff) as u8,
        ((x >> 40) & 0xff) as u8,
        ((x >> 48) & 0xff) as u8,
        ((x >> 56) & 0xff) as u8,
    ]
}

/// The `u16` read from two little-endian bytes.
pub open spec fn spec_u16_from_le(s: Seq<u8>) -> u16
    recommends
        s.len() == 2,
{
    (s[0] as u16) | (s[1] as u16) << 8
}

/// The `u32` read from four little-endian bytes.
pub open spec fn spec_u32_from_le(s: Seq<u8>) -> u32
    recommends
        s.len() == 4,
{
    (s[0] as u32) | (s[1] as u32) << 8 | (s[2] as u32) << 16 | (s[3] as u32) << 24
}

/// The `u64` read from eight little-endian bytes.
pub open spec fn spec_u64_from_le(s: Seq<u8>) -> u64
    recommends
        s.len() == 8,
{
    (s[0] as u64) | (s[1] as u64) << 8 | (s[2] as u64) << 16 | (s[3] as u64) << 24 | (
    s[4] as u64) << 32 | (s[5] as u64) << 40 | (s[6] as u64) << 48 | (s[7] as u64) << 56
}

proof fn lemma_u16_le_round_trip(x: u16)
    ensures
        spec_u16_from_le(spec_u16_le(x)) == x,
{
    assert((((x & 0xff) as u8) as u16) | ((((x >> 8) & 0xff) as u8) as u16) << 8 == x)
        by (bit_vector);
}

proof fn lemma_u32_le_round_trip(x: u32)
    ensures
        spec_u32_from_le(spec_u32_le(x)) == x,
{
    assert((((x & 0xff) as u8) as u32) | ((((x >> 8) & 0xff) as u8) as u32) << 8 | ((((x >> 16)
        & 0xff) as u8) as u32) << 16 | ((((x >> 24) & 0xff) as u8) as u32) << 24 == x)
        by (bit_vector);
}

proof fn lemma_u64_le_round_trip(x: u64)
    ensures
        spec_u64_from_le(spec_u64_le(x)) == x,
{
    assert((((x & 0xff) as u8) as u64) | ((((x >> 8) & 0xff) as u8) as u64) << 8 | ((((x >> 16)
        & 0xff) as u8) as u64) << 16 | ((((x >> 24) & 0xff) as u8) as u64) << 24 | ((((x >> 32)
        & 0xff) as u8) as u64) << 32 | ((((x >> 40) & 0xff) as u8) as u64) << 40 | ((((x >> 48)
        & 0xff) as u8) as u64) << 48 | ((((x >> 56) & 0xff) as u8) as u64) << 56 == x)
        by (bit_vector);
}

/// The serialized form of an event: every field in little-endian byte order,
/// at the offsets of the layout table, with four zero pad bytes at the end.
pub open spec fn spec_event_bytes(e: CausalEvent) -> Seq<u8> {
    spec_u64_le(e.lamport_ts) + spec_u32_le(e.node_id) + spec_u16_le(e.stream_id) + spec_u16_le(
        e.flags,
    ) + spec_u64_le(e.payload_offset) + spec_u32_le(e.checksum) + seq![0u8, 0u8, 0u8, 0u8]
}

/// The event whose fields are read, little-endian, from a 32-byte sequence.
/// The pad bytes are ignored.
pub open spec fn spec_event_from_bytes(s: Seq<u8>) -> CausalEvent
    recommends
        s.len() == EVENT_SIZE,
{
    CausalEvent {
        lamport_ts: spec_u64_from_le(s.subrange(0, 8)),
        node_id: spec_u32_from_le(s.subrange(8, 12)),
        stream_id: spec_u16_from_le(s.subrange(12, 14)),
        flags: spec_u16_from_le(s.subrange(14, 16)),
        payload_offset: spec_u64_from_le(s.subrange(16, 24)),
        checksum: spec_u32_from_le(s.subrange(24, 28)),
    }
}

fn push_u16_le(out: &mut Vec<u8>, x: u16)
    ensures
        final(out)@ == old(out)@ + spec_u16_le(x),
{
    out.push(#[verifier::truncate] ((x & 0xff) as u8));
    out.push(#[verifier::truncate] (((x >> 8) & 0xff) as u8));
    proof {
        assert(out@ =~= old(out)@ + spec_u16_le(x));
    }
}

fn push_u32_le(out: &mut Vec<u8>, x: u32)
    ensures
        final(out)@ == old(out)@ + spec_u32_le(x),
{
    out.push(#[verifier::truncate] ((x & 0xff) as u8));
    out.push(#[verifier::truncate] (((x >> 8) & 0xff) as u8));
    out.push(#[verifier::truncate] (((x >> 16) & 0xff) as u8));
    out.push(#[verifier::truncate] (((x >> 24) & 0xff) as u8));
    proof {
        assert(out@ =~= old(out)@ + spec_u32_le(x));
    }
}

fn push_u64_le(out: &mut Vec<u8>, x: u64)
    ensures
        final(out)@ == old(out)@ + spec_u64_le(x),
{
    out.push(#[verifier::truncate] ((x & 0xff) as u8));
    out.push(#[verifier::truncate] (((x >> 8) & 0xff) as u8));
    out.push(#[verifier::truncate] (((x >> 16) & 0xff) as u8));
    out.push(#[verifier::truncate] (((x >> 24) & 0xff) as u8));
    out.push(#[verifier::truncate] (((x >> 32) & 0xff) as u8));
    out.push(#[verifier::truncate] (((x >> 40) & 0xff) as u8));
    out.push(#[verifier::truncate] (((x >> 48) & 0xff) as u8));
    out.push(#[verifier::truncate] (((x >> 56) & 0xff) as u8));
    proof {
        assert(out@ =~= old(out)@ + spec_u64_le(x));
    }
}

impl CausalEvent {
    /// Serialize the event to its 32-byte form.
    pub fn to_bytes(&self) -> (r: Vec<u8>)
        ensures
            r@ == spec_event_bytes(*self),
            r@.len() == EVENT_SIZE,
    {
        let mut r: Vec<u8> = Vec::new();
        push_u64_le(&mut r, self.lamport_ts);
        push_u32_le(&mut r, self.node_id);
        push_u16_le(&mut r, self.stream_id);
        push_u16_le(&mut r, self.flags);
        push_u64_le(&mut r, self.payload_offset);
        push_u32_le(&mut r, self.checksum);
        r.push(0);
        r.push(0);
        r.push(0);
        r.push(0);
        proof {
            assert(r@ =~= spec_event_bytes(*self));
        }
        r
    }

    /// Deserialize an event from its 32-byte form.
    pub fn from_bytes(bytes: &[u8]) -> (r: CausalEvent)
        requires
            bytes@.len() == EVENT_SIZE,
        ensures
            r == spec_event_from_bytes(bytes@),
    {
        let lamport_ts = read_u64_le(bytes, 0);
        let node_id = read_u32_le(bytes, 8);
        let stream_id = read_u16_le(bytes, 12);
        let flags = read_u16_le(bytes, 14);
        let payload_offset = read_u64_le(bytes, 16);
        let checksum = read_u32_le(bytes, 24);
        CausalEvent { lamport_ts, node_id, stream_id, flags, payload_offset, checksum }
    }
}

fn read_u16_le(bytes: &[u8], at: usize) -> (r: u16)
    requires
        at + 2 <= bytes@.len(),
    ensures
        r == spec_u16_from_le(bytes@.subrange(at as int, at + 2)),
{
    let n: usize = bytes.len();
    proof {
        assert(at + 2 <= n);
    }
    let b0 = *vstd::slice::slice_index_get(bytes, at);
    let b1 = *vstd::slice::slice_index_get(bytes, at + 1);
    (b0 as u16) | (b1 as u16) << 8u16
}

fn read_u32_le(bytes: &[u8], at: usize) -> (r: u32)
    requires
        at + 4 <= bytes@.len(),
    ensures
        r == spec_u32_from_le(bytes@.subrange(at as int, at + 4)),
{
    let n: usize = bytes.len();
    proof {
        assert(at + 4 <= n);
    }
    let b0 = *vstd::slice::slice_index_get(bytes, at);
    let b1 = *vstd::slice::slice_index_get(bytes, at + 1);
    let b2 = *vstd::slice::slice_index_get(bytes, at + 2);
    let b3 = *vstd::slice::slice_index_get(bytes, at + 3);
    (b0 as u32) | (b1 as u32) << 8u32 | (b2 as u32) << 16u32 | (b3 as u32) << 24u32
}

fn read_u64_le(bytes: &[u8], at: usize) -> (r: u64)
    requires
        at + 8 <= bytes@.len(),
    ensures
        r == spec_u64_from_le(bytes@.subrange(at as int, at + 8)),
{
    let n: usize = bytes.len();
    proof {
        assert(at + 8 <= n);
    }
    let b0 = *vstd::slice::slice_index_get(bytes, at);
    let b1 = *vstd::slice::slice_index_get(bytes, at + 1);
    let b2 = *vstd::slice::slice_index_get(bytes, at + 2);
    let b3 = *vstd::slice::slice_index_get(bytes, at + 3);
    let b4 = *vstd::slice::slice_index_get(bytes, at + 4);
    let b5 = *vstd::slice::slice_index_get(bytes, at + 5);
    let b6 = *vstd::slice::slice_index_get(bytes, at + 6);
    let b7 = *vstd::slice::slice_index_get(bytes, at + 7);
    (b0 as u64) | (b1 as u64) << 8u64 | (b2 as u64) << 16u64 | (b3 as u64) << 24u64 | (
    b4 as u64) << 32u64 | (b5 as u64) << 40u64 | (b6 as u64) << 48u64 | (b7 as u64) << 56u64
}

/// Serialization round-trip: reading back the 32 serialized bytes of any
/// event yields that event, field for field.
pub proof fn lemma_event_bytes_round_trip(e: CausalEvent)
    ensures
        spec_event_bytes(e).len() == EVENT_SIZE,
        spec_event_from_bytes(spec_event_bytes(e)) == e,
{
    let s = spec_event_bytes(e);
    assert(s.subrange(0, 8) =~= spec_u64_le(e.lamport_ts));
    assert(s.subrange(8, 12) =~= spec_u32_le(e.node_id));
    assert(s.subrange(12, 14) =~= spec_u16_le(e.stream_id));
    assert(s.subrange(14, 16) =~= spec_u16_le(e.flags));
    assert(s.subrange(16, 24) =~= spec_u64_le(e.payload_offset));
    assert(s.subrange(24, 28) =~= spec_u32_le(e.checksum));
    lemma_u64_le_round_trip(e.lamport_ts);
    lemma_u32_le_round_trip(e.node_id);
    lemma_u16_le_round_trip(e.stream_id);
    lemma_u16_le_round_trip(e.flags);
    lemma_u64_le_round_trip(e.payload_offset);
    lemma_u32_le_round_trip(e.checksum);
}

/// Every field of the event is zero.
pub open spec fn spec_is_empty(e: CausalEvent) -> bool {
    &&& e.lamport_ts == 0
    &&& e.node_id == 0
    &&& e.stream_id == 0
    &&& e.flags == 0
    &&& e.payload_offset == 0
    &&& e.checksum == 0
}

/// True iff every field of the event is zero. An index-ring slot holding such
/// an event is an empty slot: all of its 32 bytes are zero
/// ([`lemma_empty_event_bytes`]).
pub fn is_empty_event(event: &CausalEvent) -> (r: bool)
    ensures
        r == spec_is_empty(*event),
{
    event.lamport_ts == 0 && event.node_id == 0 && event.stream_id == 0 && event.flags == 0
        && event.payload_offset == 0 && event.checksum == 0
}

/// An event has all fields zero iff its serialized form is 32 zero bytes.
/// This is what makes the all-zero slot an unambiguous empty marker.
pub proof fn lemma_empty_event_bytes(e: CausalEvent)
    ensures
        spec_is_empty(e) <==> (forall|i: int|
            0 <= i < EVENT_SIZE ==> spec_event_bytes(e)[i] == 0),
{
    assert(0u64 & 0xff == 0 && (0u64 >> 8) & 0xff == 0 && (0u64 >> 16) & 0xff == 0 && (0u64 >> 24)
        & 0xff == 0 && (0u64 >> 32) & 0xff == 0 && (0u64 >> 40) & 0xff == 0 && (0u64 >> 48) & 0xff
        == 0 && (0u64 >> 56) & 0xff == 0) by (bit_vector);
    assert(0u32 & 0xff == 0 && (0u32 >> 8) & 0xff == 0 && (0u32 >> 16) & 0xff == 0 && (0u32 >> 24)
        & 0xff == 0) by (bit_vector);
    assert(0u16 & 0xff == 0 && (0u16 >> 8) & 0xff == 0) by (bit_vector);
    let s = spec_event_bytes(e);
    if spec_is_empty(e) {
        assert(forall|i: int| 0 <= i < EVENT_SIZE ==> s[i] == 0);
    }
    if forall|i: int| 0 <= i < EVENT_SIZE ==> s[i] == 0 {
        lemma_event_bytes_round_trip(e);
        let zeros = s.subrange(0, 8);
        assert((0u8 as u64) | (0u8 as u64) << 8 | (0u8 as u64) << 16 | (0u8 as u64) << 24 | (
        0u8 as u64) << 32 | (0u8 as u64) << 40 | (0u8 as u64) << 48 | (0u8 as u64) << 56 == 0)
            by (bit_vector);
        assert((0u8 as u32) | (0u8 as u32) << 8 | (0u8 as u32) << 16 | (0u8 as u32) << 24 == 0)
            by (bit_vector);
        assert((0u8 as u16) | (0u8 as u16) << 8 == 0) by (bit_vector);
        assert(e.lamport_ts == spec_u64_from_le(s.subrange(0, 8)));
        assert(s.subrange(0, 8)[0] == 0);
    }
}

/// The sequence is sorted in the causal order.
pub open spec fn sorted_by_key(s: Seq<CausalEvent>) -> bool {
    forall|i: int, j: int| 0 <= i <= j < s.len() ==> key_le(s[i], s[j])
}

fn key_before(a: &CausalEvent, b: &CausalEvent) -> (r: bool)
    ensures
        r == key_lt(*a, *b),
{
    if a.lamport_ts != b.lamport_ts {
        a.lamport_ts < b.lamport_ts
    } else if a.node_id != b.node_id {
        a.node_id < b.node_id
    } else {
        a.stream_id < b.stream_id
    }
}

fn swap_events(v: &mut Vec<CausalEvent>, a: usize, b: usize)
    requires
        a < b < old(v)@.len(),
    ensures
        final(v)@ == old(v)@.update(a as int, old(v)@[b as int]).update(
            b as int,
            old(v)@[a as int],
        ),
        final(v)@.len() == old(v)@.len(),
        final(v)@.to_multiset() == old(v)@.to_multiset(),
{
    let x = *v.get(a).unwrap();
    let y = *v.get(b).unwrap();
    v.set(a, y);
    v.set(b, x);
    proof {
        broadcast use vstd::seq_lib::group_to_multiset_ensures;
        broadcast use vstd::multiset::group_multiset_axioms;

        let s0 = old(v)@;
        let s1 = s0.update(a as int, y);
        let s2 = s1.update(b as int, x);
        assert(v@ == s2);
        vstd::seq_lib::to_multiset_update(s0, a as int, y);
        vstd::seq_lib::to_multiset_update(s1, b as int, x);
        assert(s1[b as int] == y);
        assert(s0.contains(x)) by {
            assert(s0[a as int] == x);
        }
        assert(s0.to_multiset().count(x) > 0);
        assert(s2.to_multiset() =~= s0.to_multiset());
    }
}

/// Sort events into the causal order. The result is sorted by the key triple
/// and holds exactly the events that went in.
pub fn sort_events(events: Vec<CausalEvent>) -> (r: Vec<CausalEvent>)
    ensures
        sorted_by_key(r@),
        r@.to_multiset() == events@.to_multiset(),
        r@.len() == events@.len(),
{
    let ghost orig = events@;
    let mut v = events;
    if v.len() <= 1 {
        return v;
    }
    let n = v.len();
    let mut i: usize = 1;
    while i < n
        invariant
            1 <= i <= n,
            n == v@.len(),
            sorted_by_key(v@.subrange(0, i as int)),
            v@.to_multiset() == orig.to_multiset(),
        decreases n - i,
    {
        proof {
            assert forall|a: int, b: int| 0 <= a <= b < i implies key_le(v@[a], v@[b]) by {
                assert(v@.subrange(0, i as int)[a] == v@[a]);
                assert(v@.subrange(0, i as int)[b] == v@[b]);
            }
        }
        let mut j: usize = i;
        while j > 0 && key_before(v.get(j).unwrap(), v.get(j - 1).unwrap())
            invariant
                0 <= j <= i < n,
                n == v@.len(),
                v@.to_multiset() == orig.to_multiset(),
                forall|a: int, b: int|
                    0 <= a <= b <= i && b != j ==> key_le(v@[a], v@[b]),
                forall|b: int| j < b <= i ==> key_le(v@[j as int], v@[b]),
            decreases j,
        {
            swap_events(&mut v, j - 1, j);
            j = j - 1;
        }
        proof {
            assert forall|a: int, b: int| 0 <= a <= b <= i implies key_le(v@[a], v@[b]) by {
                if a == b {
                    assert(key_le(v@[a], v@[b]));
                } else if b == j {
                    assert(key_le(v@[j - 1], v@[j as int]));
                    assert(key_le(v@[a], v@[j - 1]));
                } else if a == j {
                    assert(key_le(v@[j as int], v@[b]));
                }
            }
            assert forall|a: int, b: int|
                #![trigger v@.subrange(0, i + 1)[a], v@.subrange(0, i + 1)[b]]
                0 <= a <= b < i + 1 implies key_le(
                v@.subrange(0, i + 1)[a],
                v@.subrange(0, i + 1)[b],
            ) by {
                assert(v@.subrange(0, i + 1)[a] == v@[a]);
                assert(v@.subrange(0, i + 1)[b] == v@[b]);
            }
            assert(sorted_by_key(v@.subrange(0, i + 1)));
        }
        i = i + 1;
    }
    proof {
        assert(v@.subrange(0, n as int) =~= v@);
    }
    v
}

/// Sorting in the causal order makes `lamport_ts` non-decreasing along the
/// sequence: the timestamp is the first component of the lexicographic key.
pub proof fn lemma_sorted_lamport_monotonic(s: Seq<CausalEvent>)
    requires
        sorted_by_key(s),
    ensures
        forall|i: int, j: int| 0 <= i <= j < s.len() ==> s[i].lamport_ts <= s[j].lamport_ts,
{
    assert forall|i: int, j: int|
        0 <= i <= j < s.len() implies s[i].lamport_ts <= s[j].lamport_ts by {
        assert(key_le(s[i], s[j]));
    }
}

/// The causal order is reflexive: every event compares `Equal` to itself.
pub proof fn lemma_order_reflexive(a: CausalEvent)
    ensures
        spec_compare(a, a) == Ordering::Equal,
        key_le(a, a),
{
}

/// The causal order is antisymmetric: mutual `key_le` forces agreement on the
/// whole ordering key.
pub proof fn lemma_order_antisymmetric(a: CausalEvent, b: CausalEvent)
    requires
        key_le(a, b),
        key_le(b, a),
    ensures
        key_eq(a, b),
        spec_compare(a, b) == Ordering::Equal,
{
}

/// The causal order is transitive.
pub proof fn lemma_order_transitive(a: CausalEvent, b: CausalEvent, c: CausalEvent)
    requires
        key_le(a, b),
        key_le(b, c),
    ensures
        key_le(a, c),
{
}

/// The causal order is total: any two events are comparable.
pub proof fn lemma_order_total(a: CausalEvent, b: CausalEvent)
    ensures
        key_le(a, b) || key_le(b, a),
        spec_compare(a, b) == Ordering::Less <==> key_lt(a, b),
        spec_compare(a, b) == Ordering::Equal <==> key_eq(a, b),
        spec_compare(a, b) == Ordering::Greater <==> key_lt(b, a),
{
}

/// The order consults the key triple alone: two events that share it compare
/// `Equal` however `payload_offset`, `checksum` or `flags` differ.
pub proof fn lemma_order_ignores_payload(a: CausalEvent, b: CausalEvent)
    requires
        a.lamport_ts == b.lamport_ts,
        a.node_id == b.node_id,
        a.stream_id == b.stream_id,
    ensures
        spec_compare(a, b) == Ordering::Equal,
{
}

} // verus!
