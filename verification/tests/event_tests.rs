use core::cmp::Ordering;
use cz_sequencer::event::{is_empty_event, sort_events, CausalEvent, EVENT_SIZE, FLAG_CHECKPOINT};

#[test]
fn test_struct_size_is_32_bytes() {
    // 8 (u64) + 4 (u32) + 2 (u16) + 2 (pad) + 8 (u64) + 4 (u32) + 4 (trailing) = 32
    assert_eq!(CausalEvent::size_bytes(), 32);
    assert_eq!(EVENT_SIZE, 32);
    assert_eq!(std::mem::size_of::<CausalEvent>(), 32);
}

#[test]
fn test_ordering_by_lamport_ts_first() {
    let a = CausalEvent::new(1, 0, 0, 0, 0);
    let b = CausalEvent::new(2, 0, 0, 0, 0);
    assert!(a < b);
}

#[test]
fn test_ordering_by_node_id_second() {
    let a = CausalEvent::new(1, 1, 0, 0, 0);
    let b = CausalEvent::new(1, 2, 0, 0, 0);
    assert!(a < b);
}

#[test]
fn test_ordering_by_stream_id_third() {
    let a = CausalEvent::new(1, 1, 1, 0, 0);
    let b = CausalEvent::new(1, 1, 2, 0, 0);
    assert!(a < b);
}

#[test]
fn test_payload_and_checksum_do_not_affect_ordering() {
    let a = CausalEvent::new(1, 1, 1, 999, 0xDEAD);
    let b = CausalEvent::new(1, 1, 1, 0, 0);
    assert_eq!(a.compare(&b), Ordering::Equal);
}

#[test]
fn test_equality_ignores_payload_fields() {
    let a = CausalEvent::new(5, 3, 7, 100, 0xBEEF);
    let b = CausalEvent::new(5, 3, 7, 200, 0xCAFE);
    assert_eq!(a, b);
}

#[test]
fn sort_three_atoms_timestamp_first() {
    let a = CausalEvent::new(5, 3, 7, 100, 0xBEEF);
    let b = CausalEvent::new(5, 3, 7, 200, 0xCAFE);
    let c = CausalEvent::new(2, 0, 0, 0, 0);
    let sorted = sort_events(vec![a, b, c]);
    assert_eq!(sorted.len(), 3);
    // C first; A and B are order-equal so they may come out in either order.
    assert_eq!(sorted[0].lamport_ts, 2);
    assert_eq!(sorted[0].payload_offset, 0);
    assert_eq!(sorted[1].lamport_ts, 5);
    assert_eq!(sorted[2].lamport_ts, 5);
    let offsets = [sorted[1].payload_offset, sorted[2].payload_offset];
    assert!(offsets.contains(&100) && offsets.contains(&200));
}

#[test]
fn sort_is_monotone_in_lamport_ts() {
    let atoms = vec![
        CausalEvent::new(9, 0, 0, 0, 0),
        CausalEvent::new(1, 5, 2, 7, 7),
        CausalEvent::new(4, 4, 4, 4, 4),
        CausalEvent::new(1, 0, 9, 1, 2),
        CausalEvent::new(0, 0, 0, 3, 0),
    ];
    let sorted = sort_events(atoms);
    for w in sorted.windows(2) {
        assert!(w[0].lamport_ts <= w[1].lamport_ts);
    }
}

#[test]
fn checkpoint_flag() {
    let plain = CausalEvent::new(1, 2, 3, 4, 5);
    assert!(!plain.is_checkpoint());
    let cp = CausalEvent::with_flags(1, 2, 3, 4, 5, FLAG_CHECKPOINT);
    assert!(cp.is_checkpoint());
}

#[test]
fn serialization_layout_is_little_endian() {
    let e = CausalEvent::with_flags(0x0102030405060708, 0x0A0B0C0D, 0x1112, 0x31, 0x41, 0x2122);
    let bytes = e.to_bytes();
    assert_eq!(bytes.len(), 32);
    assert_eq!(&bytes[0..8], &[0x08, 0x07, 0x06, 0x05, 0x04, 0x03, 0x02, 0x01]);
    assert_eq!(&bytes[8..12], &[0x0D, 0x0C, 0x0B, 0x0A]);
    assert_eq!(&bytes[12..14], &[0x12, 0x11]);
    assert_eq!(&bytes[14..16], &[0x22, 0x21]);
    assert_eq!(&bytes[16..24], &[0x31, 0, 0, 0, 0, 0, 0, 0]);
    assert_eq!(&bytes[24..28], &[0x41, 0, 0, 0]);
    assert_eq!(&bytes[28..32], &[0, 0, 0, 0]);
}

#[test]
fn serialization_round_trip() {
    let e = CausalEvent::with_flags(77, 8, 9, 123456, 0xCAFEBABE, 3);
    let bytes = e.to_bytes();
    let back = CausalEvent::from_bytes(&bytes);
    assert_eq!(back.lamport_ts, 77);
    assert_eq!(back.node_id, 8);
    assert_eq!(back.stream_id, 9);
    assert_eq!(back.flags, 3);
    assert_eq!(back.payload_offset, 123456);
    assert_eq!(back.checksum, 0xCAFEBABE);
}

#[test]
fn empty_event_is_all_zero() {
    let zero = CausalEvent::new(0, 0, 0, 0, 0);
    assert!(is_empty_event(&zero));
    assert!(zero.to_bytes().iter().all(|b| *b == 0));
    let nonzero = CausalEvent::new(0, 0, 0, 0, 1);
    assert!(!is_empty_event(&nonzero));
}
