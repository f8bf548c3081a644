use tcp_socket::storage::{Assembler, RingBuffer};

fn ring(contents: &[u8]) -> RingBuffer<u8> {
    let mut ring = RingBuffer::new(vec![0; 6]);
    assert_eq!(ring.enqueue_slice(contents), contents.len());
    ring
}

#[test]
fn ring_starts_empty() {
    let ring: RingBuffer<u8> = RingBuffer::new(vec![0; 6]);
    assert_eq!(ring.capacity(), 6);
    assert_eq!(ring.len(), 0);
    assert_eq!(ring.window(), 6);
    assert!(ring.is_empty());
    assert!(!ring.is_full());
}

#[test]
fn ring_without_room() {
    let mut ring: RingBuffer<u8> = RingBuffer::new(vec![]);
    assert_eq!(ring.capacity(), 0);
    assert!(ring.is_empty());
    assert!(ring.is_full());
    assert_eq!(ring.enqueue_slice(b"abc"), 0);
    assert_eq!(ring.enqueue_many(3).len(), 0);
    assert_eq!(ring.dequeue_many(3), b"");
    assert_eq!(ring.get_allocated(0, 3), b"");
    assert_eq!(ring.write_unallocated(0, b"abc"), 0);
    ring.clear();
    assert_eq!(ring.len(), 0);
}

#[test]
fn ring_is_a_queue() {
    let mut ring = ring(b"abcd");
    assert_eq!(ring.len(), 4);
    assert_eq!(ring.dequeue_many(2), b"ab");
    assert_eq!(ring.enqueue_slice(b"efgh"), 4);
    assert!(ring.is_full());
    assert_eq!(ring.enqueue_slice(b"i"), 0);
    let mut data = [0; 8];
    assert_eq!(ring.dequeue_slice(&mut data), 6);
    assert_eq!(&data, b"cdefgh\0\0");
    assert!(ring.is_empty());
}

#[test]
fn ring_enqueues_what_fits() {
    let mut ring = ring(b"abcd");
    assert_eq!(ring.enqueue_slice(b"efghi"), 2);
    let mut data = [0; 6];
    assert_eq!(ring.dequeue_slice(&mut data), 6);
    assert_eq!(&data, b"abcdef");
}

#[test]
fn ring_pieces_end_with_the_storage() {
    let mut ring = ring(b"abcd");
    assert_eq!(ring.dequeue_many(3), b"abc");
    // The queue holds one octet at place 3; places 4 and 5 are free, then 0 to 2.
    {
        let piece = ring.enqueue_many(5);
        assert_eq!(piece.len(), 2);
        piece[0] = b'e';
        piece[1] = b'f';
    }
    {
        let piece = ring.enqueue_many(2);
        assert_eq!(piece.len(), 2);
        piece[0] = b'g';
        piece[1] = b'h';
    }
    assert_eq!(ring.len(), 5);
    assert_eq!(ring.get_allocated(0, 5), b"def");
    assert_eq!(ring.get_allocated(1, 1), b"e");
    assert_eq!(ring.get_allocated(3, 5), b"gh");
    assert_eq!(ring.get_allocated(5, 5), b"");
    assert_eq!(ring.get_allocated(6, 5), b"");
    assert_eq!(ring.dequeue_many(5), b"def");
    assert_eq!(ring.dequeue_many(5), b"gh");
    assert_eq!(ring.dequeue_many(5), b"");
}

#[test]
fn ring_copies_the_front_around_the_end() {
    let mut ring = ring(b"abcd");
    assert_eq!(ring.dequeue_many(3), b"abc");
    assert_eq!(ring.enqueue_slice(b"efgh"), 4);
    let mut data = [b'.'; 7];
    assert_eq!(ring.copy_front(&mut data), 5);
    assert_eq!(&data, b"defgh..");
    assert_eq!(ring.copy_front(&mut data[..2]), 2);
    assert_eq!(ring.len(), 5);
}

#[test]
fn ring_can_be_written_ahead() {
    let mut ring = ring(b"ab");
    assert_eq!(ring.write_unallocated(2, b"ef"), 2);
    assert_eq!(ring.write_unallocated(0, b"cd"), 2);
    assert_eq!(ring.len(), 2);
    ring.enqueue_unallocated(4);
    let mut data = [0; 6];
    assert_eq!(ring.copy_front(&mut data), 6);
    assert_eq!(&data, b"abcdef");
    ring.dequeue_allocated(4);
    assert_eq!(ring.dequeue_many(6), b"ef");
}

#[test]
fn ring_is_not_written_past_its_room() {
    let mut ring = ring(b"abcd");
    assert_eq!(ring.write_unallocated(1, b"xyz"), 1);
    assert_eq!(ring.write_unallocated(2, b"xyz"), 0);
    assert_eq!(ring.write_unallocated(9, b"xyz"), 0);
    ring.enqueue_unallocated(2);
    let mut data = [0; 6];
    assert_eq!(ring.copy_front(&mut data), 6);
    assert_eq!(&data, b"abcd\0x");
}

#[test]
fn ring_forgets_its_contents() {
    let mut ring = ring(b"abcd");
    ring.dequeue_allocated(3);
    ring.clear();
    assert!(ring.is_empty());
    assert_eq!(ring.enqueue_many(6).len(), 6);
}

#[test]
fn assembler_starts_empty() {
    let mut assembler = Assembler::new(16);
    assert_eq!(assembler.total_size(), 16);
    assert!(assembler.is_empty());
    assert_eq!(assembler.remove_front(), None);
}

#[test]
fn assembler_passes_on_the_front() {
    let mut assembler = Assembler::new(16);
    assert_eq!(assembler.add(0, 4), Ok(()));
    assert!(!assembler.is_empty());
    assert_eq!(assembler.remove_front(), Some(4));
    assert!(assembler.is_empty());
    assert_eq!(assembler.remove_front(), None);
    assert_eq!(assembler.total_size(), 16);
}

#[test]
fn assembler_waits_for_holes_to_be_filled() {
    let mut assembler = Assembler::new(16);
    assert_eq!(assembler.add(8, 4), Ok(()));
    assert_eq!(assembler.add(2, 3), Ok(()));
    assert_eq!(assembler.remove_front(), None);
    assert_eq!(assembler.add(0, 2), Ok(()));
    assert_eq!(assembler.remove_front(), Some(5));
    assert!(!assembler.is_empty());
    // The octets that were at 8 are now at 3.
    assert_eq!(assembler.add(0, 3), Ok(()));
    assert_eq!(assembler.remove_front(), Some(7));
    assert!(assembler.is_empty());
}

#[test]
fn assembler_does_not_mind_the_order() {
    let parts = [(0, 3), (3, 2), (5, 4), (2, 5)];
    for first in 0..4 {
        for step in [1, 3] {
            let mut assembler = Assembler::new(12);
            for k in 0..4 {
                let (offset, size) = parts[(first + k * step) % 4];
                assert_eq!(assembler.add(offset, size), Ok(()));
            }
            assert_eq!(assembler.remove_front(), Some(9));
            assert!(assembler.is_empty());
        }
    }
}

#[test]
fn assembler_merges_what_overlaps() {
    let mut assembler = Assembler::new(16);
    assert_eq!(assembler.add(2, 2), Ok(()));
    assert_eq!(assembler.add(6, 2), Ok(()));
    assert_eq!(assembler.add(10, 2), Ok(()));
    assert_eq!(assembler.add(3, 8), Ok(()));
    assert_eq!(assembler.add(0, 3), Ok(()));
    assert_eq!(assembler.remove_front(), Some(12));
}

#[test]
fn assembler_keeps_a_limited_number_of_pieces() {
    let mut assembler = Assembler::new(16);
    assert_eq!(assembler.add(2, 1), Ok(()));
    assert_eq!(assembler.add(5, 1), Ok(()));
    assert_eq!(assembler.add(8, 1), Ok(()));
    // There are three pieces and the hole at the end.
    assert_eq!(assembler.add(11, 1), Err(()));
    assert_eq!(assembler.add(0, 1), Err(()));
    // Making one larger is fine, and so is filling the hole at the end.
    assert_eq!(assembler.add(6, 1), Ok(()));
    assert_eq!(assembler.add(12, 4), Ok(()));
    // Nothing of what was refused has been recorded.
    assert_eq!(assembler.remove_front(), None);
    assert_eq!(assembler.add(0, 2), Ok(()));
    assert_eq!(assembler.remove_front(), Some(3));
}

#[test]
fn assembler_ends_with_the_buffer() {
    let mut assembler = Assembler::new(4);
    assert_eq!(assembler.add(4, 2), Ok(()));
    assert_eq!(assembler.add(0, 0), Ok(()));
    assert!(assembler.is_empty());
    assert_eq!(assembler.add(1, 9), Ok(()));
    assert_eq!(assembler.add(0, 1), Ok(()));
    assert_eq!(assembler.remove_front(), Some(4));
}
