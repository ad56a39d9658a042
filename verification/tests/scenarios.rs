use ferrite_core::ring_buffer::{RingBuffer, RingBufferError};
use ferrite_core::topic_registry::{PartitionId, TopicId, TopicRegistry, TopicRegistryError};

#[test]
fn test_literal_scenario() {
    // Capacity 4: three pushes succeed, the fourth fails, one pop frees a
    // slot, and the values come back out in push order.
    let buffer = RingBuffer::<u32>::new(4).unwrap();
    let (mut producer, mut consumer, mut state) = buffer.split();

    assert!(producer.push(&mut state, 1).is_ok());
    assert!(producer.push(&mut state, 2).is_ok());
    assert!(producer.push(&mut state, 3).is_ok());
    assert_eq!(producer.push(&mut state, 4), Err((RingBufferError::BufferFull, 4)));

    assert_eq!(consumer.pop(&mut state), Ok(1));
    assert!(producer.push(&mut state, 4).is_ok());

    assert_eq!(consumer.pop(&mut state), Ok(2));
    assert_eq!(consumer.pop(&mut state), Ok(3));
    assert_eq!(consumer.pop(&mut state), Ok(4));
}

#[test]
fn test_snapshot_invariant() {
    // len() + remaining_capacity() == capacity - 1 after every operation.
    let buffer = RingBuffer::<u32>::new(8).unwrap();
    let (mut producer, mut consumer, mut state) = buffer.split();

    assert_eq!(consumer.len(&state) + producer.remaining_capacity(&state), 7);
    for i in 0..7 {
        producer.push(&mut state, i).unwrap();
        assert_eq!(consumer.len(&state) + producer.remaining_capacity(&state), 7);
    }
    for _ in 0..7 {
        consumer.pop(&mut state).unwrap();
        assert_eq!(consumer.len(&state) + producer.remaining_capacity(&state), 7);
    }
}

#[test]
fn test_heap_payload_round_trip() {
    // Heap-owned values come back out equal, with ownership transferred.
    let buffer = RingBuffer::<String>::new(4).unwrap();
    let (mut producer, mut consumer, mut state) = buffer.split();

    producer.push(&mut state, String::from("alpha")).unwrap();
    producer.push(&mut state, String::from("beta")).unwrap();

    assert_eq!(consumer.pop(&mut state), Ok(String::from("alpha")));
    assert_eq!(consumer.pop(&mut state), Ok(String::from("beta")));
    assert_eq!(consumer.pop(&mut state), Err(RingBufferError::BufferEmpty));
}

#[test]
fn test_capacity_validation_range() {
    // Powers of two from 1 to 65536 are accepted; everything else fails
    // with InvalidCapacity carrying the rejected value.
    let mut capacity: usize = 1;
    while capacity <= 65536 {
        assert!(RingBuffer::<u32>::new(capacity).is_ok());
        capacity *= 2;
    }
    for bad in [0usize, 3, 5, 6, 7, 9, 15, 100, 1000, 65535] {
        assert_eq!(
            RingBuffer::<u32>::new(bad).err(),
            Some(RingBufferError::InvalidCapacity(bad))
        );
    }
}

#[test]
fn test_queue_usable_after_errors() {
    // Full and Empty are recoverable: the queue keeps working afterwards.
    let buffer = RingBuffer::<u32>::new(2).unwrap();
    let (mut producer, mut consumer, mut state) = buffer.split();

    assert_eq!(consumer.pop(&mut state), Err(RingBufferError::BufferEmpty));
    producer.push(&mut state, 7).unwrap();
    assert_eq!(producer.push(&mut state, 8), Err((RingBufferError::BufferFull, 8)));
    assert_eq!(consumer.pop(&mut state), Ok(7));
    producer.push(&mut state, 8).unwrap();
    assert_eq!(consumer.pop(&mut state), Ok(8));
}

#[test]
fn test_rejected_value_returned() {
    // A push into a full buffer hands the value back beside the error,
    // so the caller can retry with it later.
    let buffer = RingBuffer::<String>::new(2).unwrap();
    let (mut producer, mut consumer, mut state) = buffer.split();

    producer.push(&mut state, String::from("first")).unwrap();
    let (error, rejected) = producer
        .push(&mut state, String::from("second"))
        .unwrap_err();
    assert_eq!(error, RingBufferError::BufferFull);
    assert_eq!(rejected, "second");

    assert_eq!(consumer.pop(&mut state), Ok(String::from("first")));
    producer.push(&mut state, rejected).unwrap();
    assert_eq!(consumer.pop(&mut state), Ok(String::from("second")));
}

#[test]
fn test_interleaved_stream() {
    // An ascending stream of 100_000 values, pushed in bursts and drained
    // whenever the buffer fills, arrives with no gap, reordering or
    // duplicate across the many wrap boundaries.
    let buffer = RingBuffer::<u32>::new(16).unwrap();
    let (mut producer, mut consumer, mut state) = buffer.split();

    let total: u32 = 100_000;
    let mut next_push: u32 = 0;
    let mut next_pop: u32 = 0;
    while next_pop < total {
        if next_push < total && producer.push(&mut state, next_push).is_ok() {
            next_push += 1;
        } else {
            assert_eq!(consumer.pop(&mut state), Ok(next_pop));
            next_pop += 1;
        }
    }
    assert!(consumer.is_empty(&state));
}

#[test]
fn test_topic_id_as_str() {
    let topic_id = TopicId::new("orders".to_string());
    assert_eq!(topic_id.as_str(), "orders");
}

#[test]
fn test_partition_id_round_trip() {
    let partition = PartitionId::new(9);
    assert_eq!(partition.as_u32(), 9);
}

#[test]
fn test_topic_partitions_contents() {
    let mut registry = TopicRegistry::new();
    let topic_id = TopicId::new("metrics".to_string());
    registry.create_topic(topic_id.clone(), 3).unwrap();

    let topic = registry.get_topic(&topic_id).unwrap().unwrap();
    let numbers: Vec<u32> = topic.partitions().iter().map(|p| p.as_u32()).collect();
    assert_eq!(numbers, vec![0, 1, 2]);
}

#[test]
fn test_assign_partition_deterministic() {
    // Equal keys always land on the same partition.
    let mut registry = TopicRegistry::new();
    let topic_id = TopicId::new("events".to_string());
    registry.create_topic(topic_id.clone(), 16).unwrap();

    let first = registry.assign_partition(&topic_id, "customer-42").unwrap();
    let second = registry.assign_partition(&topic_id, "customer-42").unwrap();
    assert_eq!(first, second);
    assert!(first.as_u32() < 16);
}

#[test]
fn test_get_partition_count_nonexistent_topic() {
    let registry = TopicRegistry::new();
    let topic_id = TopicId::new("missing".to_string());

    assert!(matches!(
        registry.get_partition_count(&topic_id),
        Err(TopicRegistryError::TopicNotFound(_))
    ));
}

#[test]
fn test_delete_leaves_other_topics() {
    let mut registry = TopicRegistry::new();
    let keep = TopicId::new("keep".to_string());
    let drop_id = TopicId::new("drop".to_string());
    registry.create_topic(keep.clone(), 2).unwrap();
    registry.create_topic(drop_id.clone(), 5).unwrap();

    registry.delete_topic(&drop_id).unwrap();

    assert!(registry.get_topic(&drop_id).unwrap().is_none());
    assert_eq!(registry.get_partition_count(&keep).unwrap(), 2);
    assert_eq!(registry.list_topics().unwrap().len(), 1);
}
