use cz_sequencer::cursor::Cursor;

#[test]
fn test_new_cursor_is_empty() {
    let c = Cursor::new(10);
    assert!(c.is_empty());
    assert!(!c.is_full());
    assert_eq!(c.len(), 0);
}

#[test]
fn test_advance_head_returns_slot() {
    let mut c = Cursor::new(4);
    assert_eq!(c.advance_head(), Some(0));
    assert_eq!(c.advance_head(), Some(1));
    assert_eq!(c.advance_head(), Some(2));
    // Ring is full (3 usable slots out of 4)
    assert_eq!(c.advance_head(), None);
}

#[test]
fn test_advance_tail_frees_slot() {
    let mut c = Cursor::new(4);
    c.advance_head();
    c.advance_head();
    c.advance_head();
    assert!(c.is_full());

    c.advance_tail();
    assert!(!c.is_full());
    assert_eq!(c.advance_head(), Some(3));
}

#[test]
fn test_wrap_around() {
    let mut c = Cursor::new(3);
    // Fill: slots 0, 1
    c.advance_head(); // head=1
    c.advance_head(); // head=2, full

    // Consume slot 0
    c.advance_tail(); // tail=1

    // Write wraps to slot 2
    assert_eq!(c.advance_head(), Some(2)); // head=0 (wrapped)
}

#[test]
fn test_empty_tail_returns_none() {
    let mut c = Cursor::new(4);
    assert_eq!(c.advance_tail(), None);
}

#[test]
fn ring_wrap_fills_again() {
    // capacity 3: two advances fill the ring; releasing one slot admits
    // exactly one more write, which wraps, and then the ring is full again.
    let mut c = Cursor::new(3);
    assert_eq!(c.advance_head(), Some(0));
    assert_eq!(c.advance_head(), Some(1));
    assert!(c.is_full());
    assert_eq!(c.advance_tail(), Some(0));
    assert_eq!(c.advance_head(), Some(2));
    assert!(c.is_full());
    assert_eq!(c.advance_head(), None);
}

#[test]
fn length_stays_under_capacity() {
    let mut c = Cursor::new(5);
    for _ in 0..20 {
        let _ = c.advance_head();
        assert!(c.len() <= c.capacity() - 1);
    }
    assert_eq!(c.len(), 4);
    for _ in 0..20 {
        let _ = c.advance_tail();
        assert!(c.len() <= c.capacity() - 1);
    }
    assert_eq!(c.len(), 0);
    assert!(c.is_empty());
}

#[test]
fn head_and_tail_observers() {
    let mut c = Cursor::new(4);
    assert_eq!((c.head(), c.tail(), c.capacity()), (0, 0, 4));
    c.advance_head();
    c.advance_head();
    c.advance_tail();
    assert_eq!((c.head(), c.tail()), (2, 1));
    assert_eq!(c.len(), 1);
}

#[test]
fn cursor_invariant_under_mixed_operations() {
    let mut c = Cursor::new(5);
    for step in 0..200u32 {
        if step % 3 == 0 {
            let _ = c.advance_tail();
        } else {
            let _ = c.advance_head();
        }
        assert!(c.head() < c.capacity());
        assert!(c.tail() < c.capacity());
        assert!(c.len() <= c.capacity() - 1);
        assert_eq!(c.is_empty(), c.len() == 0);
        assert_eq!(c.is_full(), c.len() == c.capacity() - 1);
    }
}

#[test]
fn for_index_ring_capacity() {
    let c = Cursor::for_index_ring();
    assert_eq!(c.capacity(), cz_sequencer::journal::INDEX_RING_CAPACITY);
    assert!(c.is_empty());
}
