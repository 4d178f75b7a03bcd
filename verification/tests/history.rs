use omnomon::history::{match_core_count, push_each, resize_all, RingBuffer};

fn ordered(rb: &RingBuffer<f32>) -> Vec<f32> {
    rb.iter_ordered().into_iter().copied().collect()
}

#[test]
fn empty() {
    let rb: RingBuffer<f32> = RingBuffer::new(5);
    assert_eq!(rb.len(), 0);
    assert!(rb.latest().is_none());
}

#[test]
fn push_partial() {
    let mut rb: RingBuffer<f32> = RingBuffer::new(5);
    rb.push(1.0);
    rb.push(2.0);
    rb.push(3.0);
    let v = ordered(&rb);
    assert_eq!(v, vec![1.0, 2.0, 3.0]);
    assert_eq!(rb.latest(), Some(&3.0));
}

#[test]
fn push_wraps() {
    let mut rb: RingBuffer<f32> = RingBuffer::new(3);
    for i in 1..=5 {
        rb.push(i as f32);
    }
    let v = ordered(&rb);
    assert_eq!(v, vec![3.0, 4.0, 5.0]);
    assert_eq!(rb.latest(), Some(&5.0));
    assert_eq!(rb.len(), 3);
}

#[test]
fn resize_keeps_recent() {
    let mut rb: RingBuffer<f32> = RingBuffer::new(5);
    for i in 1..=5 {
        rb.push(i as f32);
    }
    rb.resize(3);
    let v = ordered(&rb);
    assert_eq!(v, vec![3.0, 4.0, 5.0]);
}

#[test]
fn zero_capacity_holds_one() {
    let mut rb: RingBuffer<u64> = RingBuffer::new(0);
    assert_eq!(rb.capacity(), 1);
    rb.push(7);
    rb.push(8);
    assert_eq!(rb.iter_ordered(), vec![&8]);
    assert_eq!(rb.len(), 1);
}

#[test]
fn history_holds_latest_values() {
    let mut rb: RingBuffer<u64> = RingBuffer::new(4);
    for i in 0..10u64 {
        rb.push(i);
        assert!(rb.len() <= rb.capacity());
        assert_eq!(rb.latest(), Some(&i));
    }
    assert_eq!(rb.iter_ordered(), vec![&6, &7, &8, &9]);
}

#[test]
fn resize_grow_keeps_everything_then_wraps() {
    let mut rb: RingBuffer<u64> = RingBuffer::new(3);
    for i in 1..=4u64 {
        rb.push(i);
    }
    rb.resize(5);
    assert_eq!(rb.capacity(), 5);
    assert_eq!(rb.iter_ordered(), vec![&2, &3, &4]);
    for i in 5..=8u64 {
        rb.push(i);
    }
    assert_eq!(rb.iter_ordered(), vec![&4, &5, &6, &7, &8]);
    rb.resize(0);
    assert_eq!(rb.capacity(), 1);
    assert_eq!(rb.iter_ordered(), vec![&8]);
    assert!(!rb.is_empty());
}

#[test]
fn core_histories_follow_core_count() {
    let mut h: Vec<RingBuffer<f32>> = Vec::new();
    match_core_count(&mut h, 4, 60);
    assert_eq!(h.len(), 4);
    assert!(h.iter().all(|b| b.is_empty() && b.capacity() == 60));
    push_each(&mut h, vec![1.0, 2.0, 3.0, 4.0]);
    push_each(&mut h, vec![5.0, 6.0, 7.0, 8.0]);
    match_core_count(&mut h, 4, 30);
    assert_eq!(ordered(&h[2]), vec![3.0, 7.0]);
    resize_all(&mut h, 1);
    assert_eq!(ordered(&h[0]), vec![5.0]);
    assert_eq!(h[3].capacity(), 1);
    match_core_count(&mut h, 2, 30);
    assert_eq!(h.len(), 2);
    assert!(h[0].is_empty() && h[0].capacity() == 30);
}
