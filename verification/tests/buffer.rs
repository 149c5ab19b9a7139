use ringo_buff::{CircularBuffer, HeapBuffer, StackBuffer, Storage};

/// One mebibyte of pseudo-random bytes, produced by a linear congruential generator.
fn one_mib() -> Vec<u8> {
    let mut state: u64 = 0x2545_f491_4f6c_dd1d;
    let mut out: Vec<u8> = Vec::with_capacity(1024 * 1024);
    while out.len() < 1024 * 1024 {
        state = state
            .wrapping_mul(6364136223846793005)
            .wrapping_add(1442695040888963407);
        out.push((state >> 33) as u8);
    }
    out
}

#[test]
fn test_data_integrity_through_circular_buffer() {
    let data = one_mib();
    let input_data: &[u8] = &data;
    let mut circular_buffer = HeapBuffer::new(64 * 1024);
    let mut output = Vec::new();
    let mut input_pos = 0;

    while input_pos < input_data.len() {
        let (first_mut, second_mut) = circular_buffer.as_mut_slices();
        let mut written = 0;

        if !first_mut.is_empty() {
            let to_copy = std::cmp::min(first_mut.len(), input_data.len() - input_pos);
            first_mut[..to_copy].copy_from_slice(&input_data[input_pos..input_pos + to_copy]);
            written += to_copy;
            input_pos += to_copy;
        }

        if !second_mut.is_empty() && input_pos < input_data.len() {
            let to_copy = std::cmp::min(second_mut.len(), input_data.len() - input_pos);
            second_mut[..to_copy].copy_from_slice(&input_data[input_pos..input_pos + to_copy]);
            written += to_copy;
            input_pos += to_copy;
        }

        circular_buffer.commit(written);

        let (first, second) = circular_buffer.as_slices();
        if !first.is_empty() {
            output.extend_from_slice(first);
        }
        if !second.is_empty() {
            output.extend_from_slice(second);
        }

        circular_buffer.consume(circular_buffer.remaining());
    }

    assert_eq!(input_data, output.as_slice(), "Data corruption detected!");
}

#[test]
fn test_heap_resize_grow() {
    let mut buf = HeapBuffer::new(5);
    buf.commit(3); // [x, x, x, ., .]

    // Grow to 10
    buf.try_resize(10).expect("Resize should succeed");

    assert_eq!(buf.capacity(), 10);
    assert_eq!(buf.remaining(), 3);
    assert_eq!(buf.remaining_mut(), 7);

    // Verify data integrity
    let (s1, _) = buf.as_slices();
    assert_eq!(s1.len(), 3);

    // Verify we can write into new space
    buf.commit(7);
    assert!(buf.is_full());
}

#[test]
fn test_heap_resize_shrink_success() {
    let mut buf = HeapBuffer::new(10);
    buf.commit(3); // Size 3, remaining 7

    // Shrink to 5.
    buf.try_resize(5).expect("Resize should succeed");

    assert_eq!(buf.capacity(), 5);
    assert_eq!(buf.remaining(), 3);
    assert_eq!(buf.remaining_mut(), 2);
}

#[test]
fn test_heap_resize_shrink_fail() {
    let mut buf = HeapBuffer::new(10);
    buf.commit(8); // Size 8, remaining_mut 2

    // Try to shrink to 5: 3 bytes have to be consumed first.
    let err = buf.try_resize(5).unwrap_err();

    assert_eq!(err, 3, "Should report 3 bytes need to be consumed");

    // Verify buffer state is unchanged
    assert_eq!(buf.capacity(), 10);
    assert_eq!(buf.remaining(), 8);
}

#[test]
fn test_heap_resize_shrink_wraparound() {
    let mut buf = HeapBuffer::new(5);

    // Create wrap condition:
    // 1. Fill 5
    buf.commit(5);
    // 2. Consume 2 (Start = 2, Size = 3) -> [., ., x, x, x]
    buf.consume(2);
    // 3. Write 1 (Wraps to index 0) -> [x, ., x, x, x] (Size = 4)
    buf.commit(1);

    // Shrink to 4: this fits exactly.
    buf.try_resize(4).expect("Resize should succeed");

    assert_eq!(buf.capacity(), 4);
    assert!(buf.is_full());

    // Verify make_contiguous happened implicitly
    let (s1, s2) = buf.as_slices();
    assert_eq!(s1.len(), 4);
    assert!(s2.is_empty());
}

// The scenarios below run on both storage kinds.

fn check_empty_buffer<S: Storage>(buf: CircularBuffer<S>) {
    assert!(buf.is_empty());
    assert_eq!(buf.remaining(), 0);
    assert_eq!(buf.remaining_mut(), buf.capacity());
    assert!(!buf.is_full());
}

#[test]
fn test_empty_buffer() {
    check_empty_buffer(HeapBuffer::new(10));
    check_empty_buffer(StackBuffer::<10>::new());
}

fn check_full_buffer<S: Storage>(mut buf: CircularBuffer<S>) {
    buf.commit(5);
    assert!(buf.is_full());
    assert_eq!(buf.remaining(), 5);
    assert_eq!(buf.remaining_mut(), 0);
}

#[test]
fn test_full_buffer() {
    check_full_buffer(HeapBuffer::new(5));
    check_full_buffer(StackBuffer::<5>::new());
}

fn check_consume_partial<S: Storage>(mut buf: CircularBuffer<S>) {
    buf.commit(3);
    buf.consume(2);
    assert_eq!(buf.remaining(), 1);
    assert_eq!(buf.remaining_mut(), 4);
}

#[test]
fn test_consume_partial() {
    check_consume_partial(HeapBuffer::new(5));
    check_consume_partial(StackBuffer::<5>::new());
}

fn check_wrap_around_read<S: Storage>(mut buf: CircularBuffer<S>) {
    buf.commit(3);
    buf.consume(2);
    buf.commit(2);

    let (slice1, slice2) = buf.as_slices();
    assert_eq!(slice1.len() + slice2.len(), 3);
    assert!(!slice1.is_empty());
    assert!(!slice2.is_empty());
}

#[test]
fn test_wrap_around_read() {
    check_wrap_around_read(HeapBuffer::new(3));
    check_wrap_around_read(StackBuffer::<3>::new());
}

fn check_wrap_around_write<S: Storage>(mut buf: CircularBuffer<S>) {
    buf.commit(2);
    buf.consume(2);
    buf.commit(2);

    let (slice1, slice2) = buf.as_slices();
    assert_eq!(slice1.len() + slice2.len(), 2);
}

#[test]
fn test_wrap_around_write() {
    check_wrap_around_write(HeapBuffer::new(3));
    check_wrap_around_write(StackBuffer::<3>::new());
}

fn check_reset<S: Storage>(mut buf: CircularBuffer<S>) {
    buf.commit(3);
    buf.consume(1);
    buf.reset();

    assert!(buf.is_empty());
    assert_eq!(buf.remaining_mut(), buf.capacity());
    // The read position is back at the front: the whole storage is one writable slice.
    let capacity = buf.capacity();
    let (first, second) = buf.as_mut_slices();
    assert_eq!(first.len(), capacity);
    assert!(second.is_empty());
}

#[test]
fn test_reset() {
    check_reset(HeapBuffer::new(5));
    check_reset(StackBuffer::<5>::new());
}

fn check_mut_slices_wrap<S: Storage>(mut buf: CircularBuffer<S>) {
    buf.commit(4);
    buf.consume(3);
    buf.commit(2);

    let (slice1, slice2) = buf.as_mut_slices();
    assert_eq!(slice1.len() + slice2.len(), 1);
}

#[test]
fn test_mut_slices_wrap() {
    check_mut_slices_wrap(HeapBuffer::new(4));
    check_mut_slices_wrap(StackBuffer::<4>::new());
}

fn check_exact_capacity_usage<S: Storage>(mut buf: CircularBuffer<S>) {
    buf.commit(2);
    buf.consume(2);
    buf.commit(2);

    assert!(buf.is_full());
    assert_eq!(buf.remaining(), 2);
}

#[test]
fn test_exact_capacity_usage() {
    check_exact_capacity_usage(HeapBuffer::new(2));
    check_exact_capacity_usage(StackBuffer::<2>::new());
}

fn check_data_integrity_chunks<S: Storage>(mut buf: CircularBuffer<S>) {
    let input_data: &[u8] = b"your_test_data_here_with_some_longer_content_to_test_wrapping";
    let mut output = Vec::new();
    let mut input_pos = 0;

    while input_pos < input_data.len() {
        while buf.remaining_mut() > 0 && input_pos < input_data.len() {
            let chunk = buf.chunk_mut();
            let to_copy = std::cmp::min(chunk.len(), input_data.len() - input_pos);
            chunk[..to_copy].copy_from_slice(&input_data[input_pos..input_pos + to_copy]);
            buf.commit(to_copy);
            input_pos += to_copy;
        }

        while buf.remaining() > 0 {
            let chunk = buf.chunk();
            output.extend_from_slice(chunk);
            let chunk_len = chunk.len();
            buf.consume(chunk_len);
        }
    }

    assert_eq!(input_data, output.as_slice(), "Data corruption detected!");
}

#[test]
fn test_data_integrity_through_circular_buffer_chunks() {
    check_data_integrity_chunks(HeapBuffer::new(64));
    check_data_integrity_chunks(StackBuffer::<64>::new());
}

fn check_as_mut_slices_returns_writable_space<S: Storage>(mut buf: CircularBuffer<S>) {
    let (first, second) = buf.as_mut_slices();
    assert_eq!(
        first.len() + second.len(),
        8,
        "Empty buffer should have full capacity writable"
    );

    first[0..3].copy_from_slice(b"abc");
    buf.commit(3);

    let (first, second) = buf.as_mut_slices();
    assert_eq!(
        first.len() + second.len(),
        5,
        "After writing 3 bytes, should have 5 writable"
    );

    let total_writable = first.len() + second.len();
    if !first.is_empty() {
        first.fill(b'x');
    }
    if !second.is_empty() {
        second.fill(b'y');
    }
    buf.commit(total_writable);

    let (first, second) = buf.as_mut_slices();
    assert_eq!(
        first.len() + second.len(),
        0,
        "Full buffer should have no writable space"
    );

    buf.consume(2);

    let (first, second) = buf.as_mut_slices();
    assert_eq!(
        first.len() + second.len(),
        2,
        "After consuming 2 bytes, should have 2 writable"
    );
}

#[test]
fn test_as_mut_slices_returns_writable_space() {
    check_as_mut_slices_returns_writable_space(HeapBuffer::new(8));
    check_as_mut_slices_returns_writable_space(StackBuffer::<8>::new());
}

fn check_make_contiguous<S: Storage>(mut buf: CircularBuffer<S>) {
    // Case 1: Empty buffer
    assert_eq!(buf.make_contiguous(), &[] as &[u8]);

    // Case 2: Contiguous data (no wrap)
    let (first, _) = buf.as_mut_slices();
    first[0..3].copy_from_slice(&[1, 2, 3]);
    buf.commit(3);

    assert_eq!(buf.make_contiguous(), &[1, 2, 3]);

    // Case 3: Wrapped data
    let (first, _) = buf.as_mut_slices();
    first.copy_from_slice(&[4, 5]);
    buf.commit(2);

    // State: [1, 2, 3, 4, 5], start=0, size=5 (Full)
    buf.consume(2);
    // State: [_, _, 3, 4, 5], start=2, size=3

    // Write [6, 7]. This will wrap around to the beginning.
    let (first, second) = buf.as_mut_slices();
    assert_eq!(first.len(), 2);
    assert!(second.is_empty());

    first.copy_from_slice(&[6, 7]);
    buf.commit(2);

    // Verify pre-condition: buffer is physically split
    let (_, s2) = buf.as_slices();
    assert!(!s2.is_empty(), "Test setup failed: Buffer should be wrapped");

    let contiguous_slice = buf.make_contiguous();
    assert_eq!(contiguous_slice, &[3, 4, 5, 6, 7]);

    let (s1, s2) = buf.as_slices();
    assert_eq!(s1, &[3, 4, 5, 6, 7]);
    assert!(s2.is_empty());
}

#[test]
fn test_make_contiguous() {
    check_make_contiguous(HeapBuffer::new(5));
    check_make_contiguous(StackBuffer::<5>::new());
}
