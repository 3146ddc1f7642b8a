use figos::queue::{KeyQueue, KEY_QUEUE_CAPACITY};

fn nth_event(i: usize) -> char {
    char::from_u32(33 + (i as u32 % 90)).unwrap()
}

#[test]
fn fifo_order_within_capacity() {
    let mut q = KeyQueue::new();
    q.push_key('a');
    q.push_key('b');
    q.push_key('c');
    assert_eq!(q.pop_key(), Some('a'));
    assert_eq!(q.pop_key(), Some('b'));
    assert_eq!(q.pop_key(), Some('c'));
    assert_eq!(q.pop_key(), None);
}

#[test]
fn fifo_order_exactly_at_capacity() {
    let mut q = KeyQueue::new();
    for i in 0..KEY_QUEUE_CAPACITY {
        q.push_key(nth_event(i));
    }
    for i in 0..KEY_QUEUE_CAPACITY {
        assert_eq!(q.pop_key(), Some(nth_event(i)));
    }
    assert_eq!(q.pop_key(), None);
}

#[test]
fn overwrite_drops_only_the_oldest() {
    let mut q = KeyQueue::new();
    for i in 0..(KEY_QUEUE_CAPACITY + 1) {
        q.push_key(nth_event(i));
    }
    // The overwriting event is read first, out of the slot the oldest
    // event occupied; the surviving events follow in their pushed order.
    let mut popped = Vec::new();
    for _ in 0..KEY_QUEUE_CAPACITY {
        popped.push(q.pop_key().expect("an unread event"));
    }
    assert_eq!(popped[0], nth_event(KEY_QUEUE_CAPACITY));
    for i in 1..KEY_QUEUE_CAPACITY {
        assert_eq!(popped[i], nth_event(i));
    }
    // Every one of the most recent `capacity` events came out exactly once.
    let mut expected: Vec<char> = (1..=KEY_QUEUE_CAPACITY).map(nth_event).collect();
    let mut got = popped.clone();
    expected.sort();
    got.sort();
    assert_eq!(got, expected);
}

#[test]
fn pop_on_empty_queue_is_none() {
    let mut q = KeyQueue::new();
    assert_eq!(q.pop_key(), None);
    q.push_key('z');
    assert_eq!(q.pop_key(), Some('z'));
    assert_eq!(q.pop_key(), None);
}
