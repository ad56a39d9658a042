use ferrite_core::ring_buffer::{RingBuffer, RingBufferError};

#[test]
fn test_new_valid_capacity() {
    assert!(RingBuffer::<u32>::new(16).is_ok());
    assert!(RingBuffer::<u32>::new(1024).is_ok());
}

#[test]
fn test_new_invalid_capacity() {
    assert!(matches!(
        RingBuffer::<u32>::new(0),
        Err(RingBufferError::InvalidCapacity(0))
    ));
    assert!(matches!(
        RingBuffer::<u32>::new(15),
        Err(RingBufferError::InvalidCapacity(15))
    ));
}

#[test]
fn test_push_pop() {
    let buffer = RingBuffer::<u32>::new(16).unwrap();
    let (mut producer, mut consumer, mut state) = buffer.split();

    assert!(producer.push(&mut state, 42).is_ok());
    assert_eq!(consumer.pop(&mut state), Ok(42));
}

#[test]
fn test_buffer_full() {
    let buffer = RingBuffer::<u32>::new(4).unwrap();
    let (mut producer, mut consumer, mut state) = buffer.split();

    // Fill buffer (capacity - 1 items)
    assert!(producer.push(&mut state, 1).is_ok());
    assert!(producer.push(&mut state, 2).is_ok());
    assert!(producer.push(&mut state, 3).is_ok());

    // Buffer should be full now
    assert!(producer.is_full(&state));
    assert_eq!(producer.push(&mut state, 4), Err((RingBufferError::BufferFull, 4)));

    // Pop one item
    assert_eq!(consumer.pop(&mut state), Ok(1));

    // Should be able to push again
    assert!(producer.push(&mut state, 4).is_ok());
}

#[test]
fn test_buffer_empty() {
    let buffer = RingBuffer::<u32>::new(16).unwrap();
    let (mut producer, mut consumer, mut state) = buffer.split();

    assert!(consumer.is_empty(&state));
    assert_eq!(consumer.pop(&mut state), Err(RingBufferError::BufferEmpty));

    producer.push(&mut state, 42).unwrap();
    assert!(!consumer.is_empty(&state));
}

#[test]
fn test_capacity_and_len() {
    let buffer = RingBuffer::<u32>::new(16).unwrap();
    assert_eq!(buffer.capacity(), 16);

    let (mut producer, consumer, mut state) = buffer.split();
    assert_eq!(consumer.len(&state), 0);
    assert_eq!(producer.remaining_capacity(&state), 15); // capacity - 1

    producer.push(&mut state, 1).unwrap();
    producer.push(&mut state, 2).unwrap();

    assert_eq!(consumer.len(&state), 2);
    assert_eq!(producer.remaining_capacity(&state), 13);
}

#[test]
fn test_wrap_around() {
    let buffer = RingBuffer::<u32>::new(4).unwrap();
    let (mut producer, mut consumer, mut state) = buffer.split();

    // Fill and empty multiple times to test wrap-around
    for round in 0..10 {
        for i in 0..3 {
            producer.push(&mut state, round * 10 + i).unwrap();
        }
        for i in 0..3 {
            assert_eq!(consumer.pop(&mut state), Ok(round * 10 + i));
        }
    }
}
