use soundwave::stream::StreamBuffer;

fn ramp(from: usize, to: usize) -> Vec<f32> {
    (from..to).map(|n| n as f32).collect()
}

#[test]
fn new_buffer_is_empty() {
    let buffer: StreamBuffer<f32> = StreamBuffer::new(16);
    assert_eq!(buffer.len(), 0);
    assert_eq!(buffer.capacity(), 16);
    assert!(buffer.is_empty());
    assert!(buffer.contiguous_view().is_empty());
}

#[test]
fn three_batches_overflow_a_buffer_of_2048() {
    let all = ramp(0, 2500);
    let mut buffer: StreamBuffer<f32> = StreamBuffer::new(2048);
    buffer.append(&all[0..1000]);
    assert_eq!(buffer.len(), 1000);
    buffer.append(&all[1000..2000]);
    assert_eq!(buffer.len(), 2000);
    buffer.append(&all[2000..2500]);
    assert_eq!(buffer.len(), 2048);
    let view = buffer.contiguous_view();
    assert_eq!(view, &all[452..2500]);
    assert_eq!(view[0], 452.0);
    assert_eq!(view[2047], 2499.0);
}

#[test]
fn append_evicts_no_more_than_necessary() {
    let all = ramp(0, 3000);
    let mut buffer: StreamBuffer<f32> = StreamBuffer::new(2048);
    buffer.append(&all[0..2000]);
    buffer.append(&all[2000..3000]);
    // 952 samples had to leave, not the 1000 that arrived.
    assert_eq!(buffer.len(), 2048);
    assert_eq!(buffer.contiguous_view(), &all[952..3000]);
}

#[test]
fn append_below_capacity_keeps_everything() {
    let mut buffer: StreamBuffer<u32> = StreamBuffer::new(10);
    buffer.append(&[1, 2, 3]);
    buffer.append(&[4, 5]);
    assert_eq!(buffer.contiguous_view(), &[1, 2, 3, 4, 5]);
    assert_eq!(buffer.len(), 5);
}

#[test]
fn append_to_exactly_capacity_evicts_nothing() {
    let mut buffer: StreamBuffer<u32> = StreamBuffer::new(5);
    buffer.append(&[1, 2, 3]);
    buffer.append(&[4, 5]);
    assert_eq!(buffer.contiguous_view(), &[1, 2, 3, 4, 5]);
    buffer.append(&[6]);
    assert_eq!(buffer.contiguous_view(), &[2, 3, 4, 5, 6]);
}

#[test]
fn empty_batch_changes_nothing() {
    let mut buffer: StreamBuffer<u32> = StreamBuffer::new(4);
    buffer.append(&[]);
    assert!(buffer.is_empty());
    buffer.append(&[7, 8, 9]);
    buffer.append(&[]);
    assert_eq!(buffer.contiguous_view(), &[7, 8, 9]);
    buffer.append(&[10, 11]);
    buffer.append(&[]);
    assert_eq!(buffer.contiguous_view(), &[8, 9, 10, 11]);
}

#[test]
fn batch_longer_than_capacity_leaves_its_tail() {
    let mut buffer: StreamBuffer<u32> = StreamBuffer::new(3);
    buffer.append(&[1, 2]);
    buffer.append(&[10, 11, 12, 13, 14, 15, 16]);
    assert_eq!(buffer.contiguous_view(), &[14, 15, 16]);
    assert_eq!(buffer.len(), 3);
}

#[test]
fn batch_of_exactly_capacity_replaces_everything() {
    let mut buffer: StreamBuffer<u32> = StreamBuffer::new(3);
    buffer.append(&[1, 2, 3]);
    buffer.append(&[4, 5, 6]);
    assert_eq!(buffer.contiguous_view(), &[4, 5, 6]);
}

#[test]
fn buffer_of_capacity_zero_holds_nothing() {
    let mut buffer: StreamBuffer<u32> = StreamBuffer::new(0);
    buffer.append(&[1, 2, 3]);
    assert_eq!(buffer.len(), 0);
    assert!(buffer.is_empty());
    assert!(buffer.contiguous_view().is_empty());
}

#[test]
fn length_never_exceeds_capacity() {
    let capacity = 37;
    let mut buffer: StreamBuffer<u32> = StreamBuffer::new(capacity);
    let mut total = 0usize;
    let mut next = 0u32;
    for round in 0..200usize {
        let size = (round * 7 + 3) % 23;
        let batch: Vec<u32> = (0..size).map(|k| next + k as u32).collect();
        next += size as u32;
        total += size;
        buffer.append(&batch);
        assert!(buffer.len() <= capacity);
        assert_eq!(buffer.len(), total.min(capacity));
        assert_eq!(buffer.capacity(), capacity);
    }
    assert!(total >= capacity);
    assert_eq!(buffer.len(), capacity);
}

#[test]
fn view_is_the_tail_of_everything_appended() {
    let capacity = 64;
    let mut buffer: StreamBuffer<u32> = StreamBuffer::new(capacity);
    let mut everything: Vec<u32> = Vec::new();
    let sizes = [1usize, 0, 63, 1, 2, 64, 65, 200, 5, 5, 5, 31, 33, 64, 0, 7];
    for (round, size) in sizes.iter().enumerate() {
        let batch: Vec<u32> = (0..*size).map(|k| (round * 1000 + k) as u32).collect();
        everything.extend_from_slice(&batch);
        buffer.append(&batch);
        let kept = everything.len().min(capacity);
        assert_eq!(buffer.contiguous_view(), &everything[everything.len() - kept..]);
    }
}

#[test]
fn long_run_of_small_batches_keeps_order() {
    let capacity = 100;
    let mut buffer: StreamBuffer<u64> = StreamBuffer::new(capacity);
    let mut next = 0u64;
    for _ in 0..5000 {
        let batch = [next, next + 1, next + 2];
        next += 3;
        buffer.append(&batch);
    }
    let view = buffer.contiguous_view();
    assert_eq!(view.len(), 100);
    for (k, sample) in view.iter().enumerate() {
        assert_eq!(*sample, next - 100 + k as u64);
    }
}

#[test]
fn recent_gives_the_newest_samples() {
    let mut buffer: StreamBuffer<u32> = StreamBuffer::new(8);
    buffer.append(&[1, 2, 3, 4, 5]);
    assert_eq!(buffer.recent(2), &[4, 5]);
    assert_eq!(buffer.recent(5), &[1, 2, 3, 4, 5]);
    assert_eq!(buffer.recent(9), &[1, 2, 3, 4, 5]);
    assert!(buffer.recent(0).is_empty());
    buffer.append(&[6, 7, 8, 9, 10]);
    assert_eq!(buffer.recent(3), &[8, 9, 10]);
    assert_eq!(buffer.recent(usize::MAX), &[3, 4, 5, 6, 7, 8, 9, 10]);
}
