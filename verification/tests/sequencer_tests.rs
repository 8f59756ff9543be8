use cz_sequencer::event::CausalEvent;
use cz_sequencer::journal::{Journal, INDEX_RING_SIZE};
use cz_sequencer::sequencer::{CommitOutcome, EventLoopConfig, Sequencer, MAX_PACKET_SIZE};

fn make_journal(blob_capacity: usize) -> Journal {
    let mmap = memmap2::MmapMut::map_anon(INDEX_RING_SIZE + blob_capacity).unwrap();
    Journal::from_map(mmap).unwrap()
}

fn make_sequencer(blob_capacity: usize, ring_capacity: usize) -> Sequencer {
    Sequencer::new(make_journal(blob_capacity), ring_capacity)
}

fn packet(node_id: u32, stream_id: u16, payload: &[u8]) -> Vec<u8> {
    let checksum = crc32fast::hash(payload);
    let header = CausalEvent::with_flags(0, node_id, stream_id, 0, checksum, 0);
    let mut bytes = header.to_bytes();
    bytes.extend_from_slice(payload);
    bytes
}

#[test]
fn happy_path_first_commit() {
    let mut seq = make_sequencer(1024 * 1024, 1024);
    let payload = [7u8; 16];
    let pkt = packet(7, 2, &payload);
    assert_eq!(pkt.len(), 48);
    let outcome = seq.handle_packet(&pkt);
    assert_eq!(outcome, CommitOutcome::Committed(0));
    let stored = seq.journal().read_event_at(0);
    assert_eq!(stored.lamport_ts, 1);
    assert_eq!(stored.node_id, 7);
    assert_eq!(stored.stream_id, 2);
    assert_eq!(stored.payload_offset, 0);
    assert_eq!(stored.flags, 0);
    assert_eq!(stored.checksum, crc32fast::hash(&payload));
    let (events, bytes, head, tail) = seq.snapshot_counters();
    assert_eq!(events, 1);
    assert_eq!(bytes, 48);
    assert_eq!(head, 1);
    assert_eq!(tail, 0);
    assert_eq!(seq.errors(), 0);
}

#[test]
fn crc_mismatch_is_rejected() {
    let mut seq = make_sequencer(1024 * 1024, 1024);
    // Header claims checksum zero; the payload's CRC-32 is not zero.
    let payload = [0xDE, 0xAD, 0xBE, 0xEF, 0x01, 0x02, 0x03, 0x04];
    assert_ne!(crc32fast::hash(&payload), 0);
    let header = CausalEvent::with_flags(0, 1, 0, 0, 0x0000_0000, 0);
    let mut pkt = header.to_bytes();
    pkt.extend_from_slice(&payload);
    let outcome = seq.handle_packet(&pkt);
    assert_eq!(outcome, CommitOutcome::ChecksumMismatch);
    let (events, bytes, head, _) = seq.snapshot_counters();
    assert_eq!(events, 0);
    assert_eq!(bytes, 0);
    assert_eq!(head, 0);
    assert_eq!(seq.errors(), 1);
    assert_eq!(seq.lamport(), 0);
}

#[test]
fn short_packet_is_rejected() {
    let mut seq = make_sequencer(1024 * 1024, 1024);
    let outcome = seq.handle_packet(&[1, 2, 3]);
    assert_eq!(outcome, CommitOutcome::TooShort);
    assert_eq!(seq.errors(), 1);
    assert_eq!(seq.snapshot_counters().0, 0);
}

#[test]
fn ring_full_drops_packet() {
    // Capacity 2 means a single usable slot: the second commit is dropped.
    let mut seq = make_sequencer(1024 * 1024, 2);
    let first = packet(1, 1, b"one");
    let second = packet(2, 2, b"two");
    assert_eq!(seq.handle_packet(&first), CommitOutcome::Committed(0));
    assert_eq!(seq.handle_packet(&second), CommitOutcome::RingFull);
    let (events, _, head, tail) = seq.snapshot_counters();
    assert_eq!(events, 1);
    assert_eq!(head, 1);
    assert_eq!(tail, 0);
    assert_eq!(seq.errors(), 1);
    // Releasing the consumed slot admits the next packet.
    assert_eq!(seq.release_oldest(), Some(0));
    assert_eq!(seq.handle_packet(&second), CommitOutcome::Committed(1));
}

#[test]
fn multi_packet_lamport_sequence() {
    let mut seq = make_sequencer(1024 * 1024, 2048);
    for i in 0..1000u32 {
        let payload = i.to_le_bytes();
        let outcome = seq.handle_packet(&packet(i, 0, &payload));
        assert_eq!(outcome, CommitOutcome::Committed(i as usize));
    }
    let mut prev = 0u64;
    for slot in 0..1000 {
        let stored = seq.journal().read_event_at(slot);
        assert_eq!(stored.lamport_ts, slot as u64 + 1);
        assert!(stored.lamport_ts > prev);
        prev = stored.lamport_ts;
    }
    let (events, _, head, tail) = seq.snapshot_counters();
    assert_eq!(events, 1000);
    assert_eq!(head, 1000);
    assert_eq!(tail, 0);
    assert_eq!(seq.lamport(), 1000);
}

#[test]
fn blob_offset_wraps() {
    // Blob capacity 200 KiB: the fourth packet no longer fits a full-size
    // slice after three claims of MAX_PACKET_SIZE, so its offset wraps to 0.
    let mut seq = make_sequencer(200 * 1024, 1024);
    let payloads: Vec<Vec<u8>> = (0u8..4).map(|i| vec![i + 1; 16]).collect();
    for p in &payloads {
        let outcome = seq.handle_packet(&packet(9, 9, p));
        assert!(matches!(outcome, CommitOutcome::Committed(_)));
    }
    let offsets: Vec<u64> = (0..4)
        .map(|slot| seq.journal().read_event_at(slot).payload_offset)
        .collect();
    assert_eq!(
        offsets,
        vec![0, MAX_PACKET_SIZE as u64, 2 * MAX_PACKET_SIZE as u64, 0]
    );
    // The bytes at the start of the blob region are the fourth packet's.
    let fourth = packet(9, 9, &payloads[3]);
    let stored = seq.journal().read_payload(0, fourth.len());
    assert_eq!(stored, fourth);
}

#[test]
fn window_scan_matches_commits() {
    let mut seq = make_sequencer(1024 * 1024, 64);
    for i in 0..10u32 {
        let payload = [i as u8; 4];
        assert!(matches!(
            seq.handle_packet(&packet(i, 1, &payload)),
            CommitOutcome::Committed(_)
        ));
    }
    for _ in 0..3 {
        assert!(seq.release_oldest().is_some());
    }
    assert_eq!(seq.window_len(), 7);
    let (_, _, head, tail) = seq.snapshot_counters();
    let window = seq.journal().read_range(tail, head);
    assert_eq!(window.len(), 7);
    let mut expected_ts = 4u64;
    for (slot, atom) in &window {
        assert_eq!(atom.lamport_ts, expected_ts);
        assert_eq!(*slot as u64, expected_ts - 1);
        expected_ts += 1;
    }
}

#[test]
fn release_oldest_on_empty_window() {
    let mut seq = make_sequencer(1024 * 1024, 8);
    assert_eq!(seq.release_oldest(), None);
}

#[test]
fn journal_round_trip_at_slot() {
    let mut journal = make_journal(1024 * 1024);
    let atom = CausalEvent::with_flags(42, 7, 3, 9999, 0xAB, 1);
    journal.write_event_at(5, &atom);
    let back = journal.read_event_at(5);
    assert_eq!(back.lamport_ts, 42);
    assert_eq!(back.node_id, 7);
    assert_eq!(back.stream_id, 3);
    assert_eq!(back.flags, 1);
    assert_eq!(back.payload_offset, 9999);
    assert_eq!(back.checksum, 0xAB);
}

#[test]
fn read_range_skips_empty_slots() {
    let mut journal = make_journal(1024 * 1024);
    journal.write_event_at(0, &CausalEvent::new(1, 1, 1, 0, 0));
    journal.write_event_at(2, &CausalEvent::new(2, 2, 2, 0, 0));
    let events = journal.read_range(0, 4);
    assert_eq!(events.len(), 2);
    assert_eq!(events[0].0, 0);
    assert_eq!(events[0].1.lamport_ts, 1);
    assert_eq!(events[1].0, 2);
    assert_eq!(events[1].1.lamport_ts, 2);
}

#[test]
fn payload_round_trip() {
    let mut journal = make_journal(1024 * 1024);
    let data = b"the payload bytes";
    journal.write_payload(100, data);
    assert_eq!(journal.read_payload(100, data.len()), data);
    assert_eq!(journal.blob_capacity(), 1024 * 1024);
    assert_eq!(journal.size(), (INDEX_RING_SIZE + 1024 * 1024) as u64);
}

#[test]
fn journal_rejects_short_map() {
    let mmap = memmap2::MmapMut::map_anon(4096).unwrap();
    assert!(Journal::from_map(mmap).is_err());
}

#[test]
fn flush_succeeds_on_anonymous_map() {
    let journal = make_journal(64 * 1024);
    assert!(journal.flush());
}

#[test]
fn default_event_loop_config() {
    let config = EventLoopConfig::default();
    assert_eq!(config.bind_addr, "0.0.0.0:9000");
    assert_eq!(config.ring_depth, 256);
}
