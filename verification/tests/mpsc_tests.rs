use nethuns_rs::api::BufferDesc;
use nethuns_rs::mpsc::consumer_registry::ConsumerRegistry;
use nethuns_rs::mpsc::simd_type::{from_array, to_array, zero};
use nethuns_rs::mpsc::{channel, likely, to_simd, unlikely, Consumer, Producer};

fn drain(c: &mut Consumer<BufferDesc>, r: &mut ConsumerRegistry) -> Vec<usize> {
    let mut out = Vec::new();
    while let Some(x) = c.pop(r) {
        out.push(x);
    }
    out
}

#[test]
fn only_whole_groups_reach_the_consumer() {
    let (mut p, mut c, mut r): (Producer<BufferDesc>, Consumer<BufferDesc>, ConsumerRegistry) = channel(4);
    for i in 0..15usize {
        p.push(&mut r, i);
    }
    p.flush(&mut r);
    assert_eq!(c.pop(&mut r), None);
    p.push(&mut r, 15);
    p.flush(&mut r);
    assert_eq!(drain(&mut c, &mut r), (0..16).rev().collect::<Vec<usize>>());
}

#[test]
fn a_full_batch_is_handed_over_before_the_next_push() {
    let (mut p, mut c, mut r): (Producer<BufferDesc>, Consumer<BufferDesc>, ConsumerRegistry) = channel(4);
    for i in 0..17usize {
        p.push(&mut r, i);
    }
    assert_eq!(p.local_batch.len(), 1);
    assert_eq!(r.list.len(), 1);
    assert_eq!(r.list[0].len(), 1);
    assert_eq!(c.available_len(), 0);
    c.sync(&mut r);
    assert_eq!(c.available_len(), 16);
    assert_eq!(r.list[0].len(), 0);
}

#[test]
fn two_producers_get_two_queues() {
    let (mut p, mut c, mut r): (Producer<BufferDesc>, Consumer<BufferDesc>, ConsumerRegistry) = channel(4);
    let mut q: Producer<BufferDesc> = Producer::new();
    for i in 0..16usize {
        p.push(&mut r, i);
        q.push(&mut r, 100 + i);
    }
    p.flush(&mut r);
    q.flush(&mut r);
    assert_eq!(r.list.len(), 2);
    assert_eq!(p.inner, Some(1));
    assert_eq!(q.inner, Some(2));
    let got = drain(&mut c, &mut r);
    assert_eq!(got.len(), 32);
    assert_eq!(got[0], 115);
    assert_eq!(got[31], 0);
}

#[test]
fn the_cache_takes_at_most_its_capacity() {
    let (mut p, mut c, mut r): (Producer<BufferDesc>, Consumer<BufferDesc>, ConsumerRegistry) = channel(100);
    for i in 0..(16 * 70) as usize {
        p.push(&mut r, i);
    }
    p.flush(&mut r);
    c.sync(&mut r);
    assert_eq!(c.available_len(), 1024);
    assert_eq!(r.list[0].len(), 6);
}

#[test]
fn registry_find_and_remove() {
    let mut r = ConsumerRegistry::new(8);
    let a = r.push();
    let b = r.push();
    assert_eq!((a, b), (1, 2));
    assert_eq!(r.find(b), Some(1));
    r.remove(a);
    assert_eq!(r.find(a), None);
    assert_eq!(r.find(b), Some(0));
    assert_eq!(r.next_id, 3);
}

#[test]
fn groups_of_sixteen() {
    let values: Vec<usize> = (0..40).collect();
    let groups = to_simd(&values);
    assert_eq!(groups.len(), 2);
    assert_eq!(groups[0][0], 0);
    assert_eq!(groups[1][15], 31);
    let g = from_array([7; 16]);
    assert_eq!(to_array(g), [7; 16]);
    assert_eq!(zero(), [0; 16]);
    assert!(likely(true));
    assert!(!unlikely(false));
}

#[test]
fn a_cloned_producer_shares_its_queue() {
    let (mut p, mut c, mut r): (Producer<BufferDesc>, Consumer<BufferDesc>, ConsumerRegistry) = channel(4);
    for i in 0..16usize {
        p.push(&mut r, i);
    }
    p.flush(&mut r);
    let mut q = p.clone();
    assert_eq!(q.inner, p.inner);
    for i in 0..16usize {
        q.push(&mut r, 50 + i);
    }
    q.flush(&mut r);
    assert_eq!(r.list.len(), 1);
    assert_eq!(r.list[0].len(), 2);
    assert_eq!(drain(&mut c, &mut r).len(), 32);
}

#[test]
fn a_producer_for_another_thread_gets_its_own_queue() {
    let (mut p, mut c, mut r): (Producer<BufferDesc>, Consumer<BufferDesc>, ConsumerRegistry) = channel(4);
    for i in 0..16usize {
        p.push(&mut r, i);
    }
    p.flush(&mut r);
    let mut q: Producer<BufferDesc> = Producer::new();
    for i in 0..16usize {
        q.push(&mut r, 50 + i);
    }
    q.flush(&mut r);
    assert_eq!(r.list.len(), 2);
    assert_eq!(drain(&mut c, &mut r).len(), 32);
}

#[test]
fn a_partial_batch_needs_no_room_in_a_full_queue() {
    let (mut p, mut c, mut r): (Producer<BufferDesc>, Consumer<BufferDesc>, ConsumerRegistry) = channel(1);
    for i in 0..17usize {
        p.push(&mut r, i);
    }
    // The queue holds its one group; three more go to the batch.
    p.push(&mut r, 17);
    p.push(&mut r, 18);
    p.flush(&mut r);
    assert_eq!(p.local_batch.len(), 3);
    assert_eq!(drain(&mut c, &mut r).len(), 16);
}

#[test]
fn everything_pushed_and_flushed_is_popped() {
    let (mut p, mut c, mut r): (Producer<BufferDesc>, Consumer<BufferDesc>, ConsumerRegistry) = channel(1024);
    for i in 0..1024usize {
        p.push(&mut r, i);
    }
    p.flush(&mut r);
    assert_eq!(p.local_batch.len(), 0);
    let mut got = drain(&mut c, &mut r);
    got.sort();
    assert_eq!(got, (0..1024usize).collect::<Vec<_>>());
}
