use transcribe_rs::circular_buffer::{create_shared_buffer, CircularBuffer};

#[test]
fn test_basic_write_read() {
    let mut buffer = CircularBuffer::new(100);

    let start = buffer.get_current_index();
    assert_eq!(start, 0);

    buffer.write_samples(&[1, 2, 3, 4, 5]);

    let samples = buffer.extract_range(start, 5);
    assert_eq!(samples, vec![1, 2, 3, 4, 5]);

    let current = buffer.get_current_index();
    assert_eq!(current, 5);
}

#[test]
fn test_wraparound_write() {
    let mut buffer = CircularBuffer::new(10);

    // Write 15 samples (will wrap around)
    buffer.write_samples(&[1, 2, 3, 4, 5, 6, 7, 8, 9, 10]);
    buffer.write_samples(&[11, 12, 13, 14, 15]);

    assert_eq!(buffer.write_index(), 5); // Wrapped to index 5
    assert_eq!(buffer.total_written(), 15);
}

#[test]
fn test_wraparound_extraction() {
    let mut buffer = CircularBuffer::new(10);

    buffer.write_samples(&[1, 2, 3, 4, 5, 6, 7, 8, 9, 10]);
    let start = buffer.get_current_index(); // 10
    buffer.write_samples(&[11, 12, 13, 14, 15]);

    // Extract samples that span the wraparound
    let samples = buffer.extract_range(start, 5);
    assert_eq!(samples, vec![11, 12, 13, 14, 15]);
}

#[test]
fn test_overwrite_old_data() {
    let mut buffer = CircularBuffer::new(10);

    // Write 15 samples (first 5 get overwritten)
    buffer.write_samples(&[1, 2, 3, 4, 5, 6, 7, 8, 9, 10]);
    buffer.write_samples(&[11, 12, 13, 14, 15]);

    // Try to extract from the beginning (should only get samples 6-15)
    let samples = buffer.extract_range(0, 15);
    assert_eq!(samples, vec![6, 7, 8, 9, 10, 11, 12, 13, 14, 15]);
}

#[test]
fn test_extract_more_than_capacity() {
    let mut buffer = CircularBuffer::new(10);

    buffer.write_samples(&[1, 2, 3, 4, 5]);

    // Try to extract more than available
    let samples = buffer.extract_range(0, 100);
    assert_eq!(samples, vec![1, 2, 3, 4, 5]);
}

#[test]
fn test_extract_from_future() {
    let mut buffer = CircularBuffer::new(100);

    buffer.write_samples(&[1, 2, 3]);

    // Try to extract from future index
    let samples = buffer.extract_range(100, 10);
    assert_eq!(samples, Vec::<i16>::new());
}

#[test]
fn test_multiple_extractions() {
    let mut buffer = CircularBuffer::new(100);

    let start1 = buffer.get_current_index();
    buffer.write_samples(&[1, 2, 3]);

    let start2 = buffer.get_current_index();
    buffer.write_samples(&[4, 5, 6]);

    let start3 = buffer.get_current_index();
    buffer.write_samples(&[7, 8, 9]);

    let seg1 = buffer.extract_range(start1, 3);
    let seg2 = buffer.extract_range(start2, 3);
    let seg3 = buffer.extract_range(start3, 3);

    assert_eq!(seg1, vec![1, 2, 3]);
    assert_eq!(seg2, vec![4, 5, 6]);
    assert_eq!(seg3, vec![7, 8, 9]);
}

#[test]
fn test_shared_buffer() {
    let buffer = create_shared_buffer(100);

    {
        let mut buf = buffer.lock().unwrap();
        buf.write_samples(&[1, 2, 3]);
    }

    {
        let buf = buffer.lock().unwrap();
        let samples = buf.extract_range(0, 3);
        assert_eq!(samples, vec![1, 2, 3]);
    }
}

#[test]
fn test_large_buffer_wraparound() {
    // Simulate 2 minutes @ 16kHz
    let capacity = 1_920_000;
    let mut buffer = CircularBuffer::new(capacity);

    // Write 3 minutes of data (will wrap around once)
    let chunk_size = 16000; // 1 second
    for i in 0..180 {
        let chunk: Vec<i16> = vec![i as i16; chunk_size];
        buffer.write_samples(&chunk);
    }

    assert_eq!(buffer.total_written(), 180 * chunk_size);
    assert!(buffer.total_written() > capacity);

    // Extract last 10 seconds
    let start = buffer.total_written() - (10 * chunk_size);
    let samples = buffer.extract_range(start, 10 * chunk_size);
    assert_eq!(samples.len(), 10 * chunk_size);
}

#[test]
fn write_returns_start_index_and_reads_back() {
    let mut buffer = CircularBuffer::new(4);
    assert_eq!(buffer.write_samples(&[1, 2]), 0);
    let at = buffer.write_samples(&[3, 4, 5]);
    assert_eq!(at, 2);
    assert_eq!(buffer.extract_range(at, 3), vec![3, 4, 5]);
    // the first sample has been overwritten: only the retained part of the range comes back
    assert_eq!(buffer.extract_range(0, 2), vec![2]);
    assert_eq!(buffer.extract_range(0, 1), Vec::<i16>::new());
    assert_eq!(buffer.capacity(), 4);
}

#[test]
fn zero_capacity_buffer_is_always_empty() {
    let mut buffer = CircularBuffer::new(0);
    buffer.write_samples(&[]);
    assert_eq!(buffer.extract_range(0, 10), Vec::<i16>::new());
    assert_eq!(buffer.get_current_index(), 0);
}

#[test]
fn overwritten_range_gives_only_available_portion() {
    let mut b = CircularBuffer::new(10);
    b.write_samples(&[1, 2, 3, 4, 5, 6, 7, 8, 9, 10]);
    b.write_samples(&[11, 12, 13, 14, 15]);
    assert_eq!(b.extract_range(0, 3), Vec::<i16>::new());
    assert_eq!(b.extract_range(3, 4), vec![6, 7]);
    assert_eq!(b.extract_range(usize::MAX, 4), Vec::<i16>::new());
    assert_eq!(b.extract_range(12, usize::MAX), vec![13, 14, 15]);
}

#[test]
fn shared_buffer_has_requested_capacity_and_is_empty() {
    let shared = create_shared_buffer(16);
    let buf = shared.lock().unwrap();
    assert_eq!(buf.capacity(), 16);
    assert_eq!(buf.total_written(), 0);
}
