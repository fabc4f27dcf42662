use okx_feed::dispatch::{BoundedQueue, FanOut, OverflowPolicy, Stamper};
use okx_feed::types::Event;

#[test]
fn stamper_never_goes_backwards() {
    let mut s = Stamper::new();
    assert_eq!(s.stamp(100), 100);
    assert_eq!(s.stamp(99), 100, "a clock that steps back is clamped");
    assert_eq!(s.stamp(100), 100, "ties are permitted");
    assert_eq!(s.stamp(101), 101);
}

#[test]
fn bounded_queue_drop_oldest() {
    let mut q: BoundedQueue<u32> = BoundedQueue::new(2, OverflowPolicy::DropOldest);
    assert!(q.push(1).is_none());
    assert!(q.push(2).is_none());
    assert_eq!(q.push(3), Some(1), "the oldest element makes room");
    assert_eq!(q.pop_front(), Some(2));
    assert_eq!(q.pop_front(), Some(3));
    assert_eq!(q.pop_front(), None);
}

#[test]
fn bounded_queue_drop_newest() {
    let mut q: BoundedQueue<u32> = BoundedQueue::new(1, OverflowPolicy::DropNewest);
    assert!(q.push(1).is_none());
    assert_eq!(q.push(2), Some(2), "the new element is the one dropped");
    assert_eq!(q.pop_front(), Some(1));
}

#[test]
fn fan_out_slow_consumer_drops_one() {
    let mut f = FanOut::new();
    f.add_queue(1, OverflowPolicy::DropNewest);
    let dropped = f.dispatch(&Event::Heartbeat, 10);
    assert_eq!(dropped, 0);
    let dropped = f.dispatch(&Event::Heartbeat, 20);
    assert_eq!(dropped, 1, "a full consumer queue drops exactly one event");
    assert_eq!(f.queues[0].len(), 1);
    assert_eq!(f.queues[0].items[0].ingest_ts_micros, 10);
}

#[test]
fn fan_out_stamps_every_consumer_alike() {
    let mut f = FanOut::new();
    f.add_queue(4, OverflowPolicy::DropOldest);
    f.add_queue(4, OverflowPolicy::DropOldest);
    f.dispatch(&Event::Heartbeat, 7);
    f.dispatch(&Event::Heartbeat, 3);
    for q in &f.queues {
        assert_eq!(q.items[0].ingest_ts_micros, 7);
        assert_eq!(q.items[1].ingest_ts_micros, 7, "a late clock is clamped, never reordered");
    }
}
