use auto_audio_recorder::frame_queue::{FrameQueue, SampleChunk};

fn chunk(sequence: u64, samples: Vec<i32>) -> SampleChunk {
    SampleChunk { samples, sequence, timestamp_ms: 10 * sequence }
}

#[test]
fn pops_come_in_push_order_with_the_same_content() {
    let mut q = FrameQueue::with_capacity(4).unwrap();
    assert!(q.push(chunk(0, vec![1, 2, 3])));
    assert!(q.push(chunk(1, vec![])));
    assert!(q.push(chunk(2, vec![-7, 32768, 40000])));
    assert_eq!(q.try_pop(), Some(chunk(0, vec![1, 2, 3])));
    assert_eq!(q.try_pop(), Some(chunk(1, vec![])));
    assert_eq!(q.try_pop(), Some(chunk(2, vec![-7, 32768, 40000])));
    assert_eq!(q.try_pop(), None);
    assert_eq!(q.dropped(), 0);
}

#[test]
fn a_full_queue_drops_the_newest_chunk_and_counts_it() {
    let mut q = FrameQueue::with_capacity(2).unwrap();
    assert!(q.push(chunk(0, vec![1])));
    assert!(q.push(chunk(1, vec![2])));
    assert!(!q.push(chunk(2, vec![3])));
    assert!(!q.push(chunk(3, vec![4])));
    assert_eq!(q.dropped(), 2);
    assert_eq!(q.try_pop(), Some(chunk(0, vec![1])));
    assert!(q.push(chunk(4, vec![5])));
    assert_eq!(q.try_pop(), Some(chunk(1, vec![2])));
    assert_eq!(q.try_pop(), Some(chunk(4, vec![5])));
    assert_eq!(q.try_pop(), None);
    assert_eq!(q.dropped(), 2);
}

#[test]
fn the_default_queue_holds_a_thousand_chunks() {
    let mut q = FrameQueue::new();
    for i in 0..1000u64 {
        assert!(q.push(chunk(i, vec![i as i32])));
    }
    assert!(!q.push(chunk(1000, vec![0])));
    assert_eq!(q.dropped(), 1);
    for i in 0..1000u64 {
        assert_eq!(q.try_pop(), Some(chunk(i, vec![i as i32])));
    }
    assert_eq!(q.try_pop(), None);
}

#[test]
fn a_queue_holds_at_least_one_chunk_and_not_more_than_the_limit() {
    assert!(FrameQueue::with_capacity(0).is_none());
    assert!(FrameQueue::with_capacity(65537).is_none());
    assert!(FrameQueue::with_capacity(usize::MAX).is_none());
    let mut q = FrameQueue::with_capacity(1).unwrap();
    assert!(q.push(chunk(0, vec![1])));
    assert!(!q.push(chunk(1, vec![2])));
    assert!(FrameQueue::with_capacity(65536).is_some());
}
