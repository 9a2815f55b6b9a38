use rotating_buffer::RotatingBuffer;

// The smallest accepted capacity builds an empty, working buffer.
#[test]
fn construction_minimum_capacity() {
    let rb = RotatingBuffer::new(3);
    assert_eq!(rb.capacity(), 3);
    assert_eq!(rb.len(), 0);
    assert!(rb.is_empty());
    assert!(!rb.at_capacity());
    let rb5 = RotatingBuffer::new(5);
    assert_eq!(rb5.capacity(), 5);
    assert!(rb5.is_empty());
}

// FIFO order over a run of enqueues followed by dequeues.
#[test]
fn fifo_order_straight_run() {
    let mut rb = RotatingBuffer::new(8);
    for v in 10..16 {
        rb.enqueue(v).unwrap();
    }
    for v in 10..16 {
        assert_eq!(rb.dequeue(), Some(v));
    }
    assert!(rb.is_empty());
    assert_eq!(rb.dequeue(), None);
}

// FIFO order and len across repeated wrap-arounds of both cursors.
#[test]
fn fifo_order_across_wrap() {
    let mut rb = RotatingBuffer::new(4);
    let mut next_in: u8 = 0;
    let mut next_out: u8 = 0;
    // Keep two or three elements queued while the cursors circle the
    // storage region several times.
    for _ in 0..3 {
        rb.enqueue(next_in).unwrap();
        next_in += 1;
    }
    for _ in 0..20 {
        assert_eq!(rb.dequeue(), Some(next_out));
        next_out += 1;
        assert_eq!(rb.len() as u8, next_in - next_out);
        rb.enqueue(next_in).unwrap();
        next_in += 1;
    }
    while let Some(v) = rb.dequeue() {
        assert_eq!(v, next_out);
        next_out += 1;
    }
    assert_eq!(next_out, next_in);
    assert!(rb.is_empty());
}

// Filling to capacity, one more enqueue fails carrying exactly the rejected
// value; after one dequeue the enqueue succeeds again.
#[test]
fn capacity_round_trip() {
    let mut rb = RotatingBuffer::new(3);
    rb.enqueue(11).unwrap();
    rb.enqueue(22).unwrap();
    rb.enqueue(33).unwrap();
    assert!(rb.at_capacity());
    let err = rb.enqueue(44).unwrap_err();
    assert_eq!(err.reclaim(), 44);
    // The failed enqueue changed nothing.
    assert_eq!(rb.len(), 3);
    assert_eq!(rb.peek(), Some(11));
    assert_eq!(rb.peek_last(), Some(33));
    assert_eq!(rb.dequeue(), Some(11));
    assert!(!rb.at_capacity());
    rb.enqueue(44).unwrap();
    assert_eq!(rb.dequeue(), Some(22));
    assert_eq!(rb.dequeue(), Some(33));
    assert_eq!(rb.dequeue(), Some(44));
}

// len equals enqueues minus dequeues and matches is_empty/at_capacity at the
// boundaries.
#[test]
fn len_consistency() {
    let mut rb = RotatingBuffer::new(3);
    assert!(rb.is_empty());
    assert_eq!(rb.len(), 0);
    rb.enqueue(1).unwrap();
    assert!(!rb.is_empty());
    assert!(!rb.at_capacity());
    assert_eq!(rb.len(), 1);
    rb.enqueue(2).unwrap();
    rb.enqueue(3).unwrap();
    assert_eq!(rb.len(), rb.capacity());
    assert!(rb.at_capacity());
    assert!(!rb.is_empty());
    rb.dequeue();
    assert_eq!(rb.len(), 2);
    assert!(!rb.at_capacity());
    rb.dequeue();
    rb.dequeue();
    assert_eq!(rb.len(), 0);
    assert!(rb.is_empty());
}

// The peek operations change nothing: every observation repeats.
#[test]
fn peek_does_not_mutate() {
    let mut rb = RotatingBuffer::new(4);
    rb.enqueue(5).unwrap();
    rb.enqueue(6).unwrap();
    rb.enqueue(7).unwrap();
    for _ in 0..3 {
        assert_eq!(rb.peek(), Some(5));
        assert_eq!(rb.peek_last(), Some(7));
        assert_eq!(rb.peek_pos(0), Some(5));
        assert_eq!(rb.peek_pos(1), Some(6));
        assert_eq!(rb.peek_pos(2), Some(7));
        assert_eq!(rb.peek_pos(3), None);
        assert_eq!(rb.len(), 3);
    }
    assert_eq!(rb.dequeue(), Some(5));
    assert_eq!(rb.dequeue(), Some(6));
    assert_eq!(rb.dequeue(), Some(7));
}

// Absence is a normal outcome, not an error: empty reads return nothing.
#[test]
fn empty_reads_return_nothing() {
    let mut rb = RotatingBuffer::new(3);
    assert_eq!(rb.dequeue(), None);
    assert_eq!(rb.peek(), None);
    assert_eq!(rb.peek_last(), None);
    assert_eq!(rb.peek_pos(0), None);
    assert_eq!(rb.peek_pos(7), None);
}

// peek, peek_last and peek_pos agree on a buffer whose tail has wrapped back
// to the start of the storage region.
#[test]
fn peek_on_wrapped_buffer() {
    let mut rb = RotatingBuffer::new(3);
    rb.enqueue(1).unwrap();
    rb.enqueue(2).unwrap();
    rb.enqueue(3).unwrap();
    // Tail has wrapped to index 0; the buffer is full.
    assert_eq!(rb.peek_last(), Some(3));
    assert_eq!(rb.peek_pos(2), Some(3));
    rb.dequeue().unwrap();
    rb.enqueue(4).unwrap();
    // Now the newest byte sits at index 0 of the storage region.
    assert_eq!(rb.peek(), Some(2));
    assert_eq!(rb.peek_pos(0), Some(2));
    assert_eq!(rb.peek_pos(1), Some(3));
    assert_eq!(rb.peek_pos(2), Some(4));
    assert_eq!(rb.peek_last(), Some(4));
    assert_eq!(rb.peek_pos(3), None);
}

// The concrete three-part scenario at capacity 3.
#[test]
fn capacity_three_scenario() {
    // Enqueue 1,2 then dequeue both: empty again.
    let mut rb = RotatingBuffer::new(3);
    rb.enqueue(1).unwrap();
    rb.enqueue(2).unwrap();
    assert_eq!(rb.dequeue(), Some(1));
    assert_eq!(rb.dequeue(), Some(2));
    assert!(rb.is_empty());

    // Enqueue 1,2,3 then a fourth fails and hands back its value.
    let mut rb = RotatingBuffer::new(3);
    rb.enqueue(1).unwrap();
    rb.enqueue(2).unwrap();
    rb.enqueue(3).unwrap();
    let err = rb.enqueue(4).unwrap_err();
    assert_eq!(err.reclaim(), 4);

    // Enqueue 1,2, dequeue 1, enqueue 3,4: the rest comes out 2,3,4.
    let mut rb = RotatingBuffer::new(3);
    rb.enqueue(1).unwrap();
    rb.enqueue(2).unwrap();
    assert_eq!(rb.dequeue(), Some(1));
    rb.enqueue(3).unwrap();
    rb.enqueue(4).unwrap();
    assert_eq!(rb.dequeue(), Some(2));
    assert_eq!(rb.dequeue(), Some(3));
    assert_eq!(rb.dequeue(), Some(4));
    assert!(rb.is_empty());
}

// Overwriting a vacated slot stores the new byte, not the old one.
#[test]
fn vacated_slot_is_overwritten() {
    let mut rb = RotatingBuffer::new(3);
    rb.enqueue(101).unwrap();
    rb.enqueue(102).unwrap();
    rb.enqueue(103).unwrap();
    assert_eq!(rb.dequeue(), Some(101));
    // This write lands on the storage slot 101 occupied.
    rb.enqueue(104).unwrap();
    assert_eq!(rb.peek_last(), Some(104));
    assert_eq!(rb.dequeue(), Some(102));
    assert_eq!(rb.dequeue(), Some(103));
    assert_eq!(rb.dequeue(), Some(104));
}
