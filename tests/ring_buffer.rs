use wavewire::RingBuffer;

#[test]
fn test_ring_buffer_push() {
    let mut buffer = RingBuffer::new(10);
    buffer.push(&[1.0f32, 2.0, 3.0]);
    assert_eq!(buffer.len(), 3);
}

#[test]
fn test_ring_buffer_overflow() {
    let mut buffer = RingBuffer::new(5);
    buffer.push(&[1.0f32, 2.0, 3.0, 4.0, 5.0]);
    assert_eq!(buffer.len(), 5);

    buffer.push(&[6.0, 7.0]);
    assert_eq!(buffer.len(), 5);

    let samples = buffer.peek(5);
    assert_eq!(samples, vec![3.0, 4.0, 5.0, 6.0, 7.0]);
}

#[test]
fn test_ring_buffer_peek() {
    let mut buffer = RingBuffer::new(10);
    buffer.push(&[1.0f32, 2.0, 3.0, 4.0, 5.0]);

    let samples = buffer.peek(3);
    assert_eq!(samples, vec![3.0, 4.0, 5.0]);

    assert_eq!(buffer.len(), 5);
}

#[test]
fn ring_buffer_far_past_capacity_keeps_latest_in_order() {
    let mut buffer = RingBuffer::new(4);
    let samples: Vec<u32> = (1..=11).collect();
    buffer.push(&samples);
    assert_eq!(buffer.len(), 4);
    assert_eq!(buffer.peek(4), vec![8, 9, 10, 11]);
    assert_eq!(buffer.peek(100), vec![8, 9, 10, 11]);
}

#[test]
fn ring_buffer_empty_and_clear() {
    let mut buffer: RingBuffer<f32> = RingBuffer::new(3);
    assert!(buffer.is_empty());
    assert_eq!(buffer.peek(2), Vec::<f32>::new());
    buffer.push(&[]);
    assert!(buffer.is_empty());
    buffer.push(&[0.5, 0.25]);
    assert!(!buffer.is_empty());
    assert!(buffer.has_enough_samples(2));
    assert!(!buffer.has_enough_samples(3));
    buffer.clear();
    assert_eq!(buffer.len(), 0);
    buffer.push(&[1.0, 2.0, 3.0, 4.0]);
    assert_eq!(buffer.peek(3), vec![2.0, 3.0, 4.0]);
}

#[test]
fn ring_buffer_zero_capacity_keeps_latest_sample() {
    let mut buffer = RingBuffer::new(0);
    buffer.push(&[1u8, 2, 3]);
    assert_eq!(buffer.len(), 1);
    assert_eq!(buffer.peek(1), vec![3]);
}
