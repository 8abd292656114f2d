use batflock::queue::Queue;

#[test]
fn queue_starts_empty() {
    let q: Queue<i64> = Queue::new(8);
    assert_eq!(q.get_items_in_q(), 0);
    assert_eq!(q.get_length(), 0);
    assert!(q.empty());
    assert!(q.peek().is_none());
    assert!(q.get_at(0).is_none());
}

#[test]
fn queue_push_pop_is_fifo() {
    let mut q: Queue<i64> = Queue::new(4);
    q.push(1);
    q.push(2);
    q.push(3);
    assert_eq!(q.pop(), 1);
    q.push(4);
    // Surviving values, oldest first: 2, 3, 4.
    assert_eq!(q.get_items_in_q(), 3);
    assert_eq!(*q.get_at(0).unwrap(), 2);
    assert_eq!(*q.get_at(1).unwrap(), 3);
    assert_eq!(*q.get_at(2).unwrap(), 4);
    assert!(q.get_at(3).is_none());
    assert_eq!(*q.peek().unwrap(), 2);
    assert!(!q.empty());
}

#[test]
fn queue_window_stays_under_capacity() {
    // The owner's discipline: push, then pop once more than capacity - 1
    // entries are live. The window then holds the newest capacity - 1 values.
    let cap: usize = 5;
    let mut q: Queue<i64> = Queue::new(cap);
    for v in 0..20i64 {
        q.push(v);
        if q.get_items_in_q() > cap - 1 {
            q.pop();
        }
    }
    assert_eq!(q.get_items_in_q(), cap - 1);
    // Oldest surviving is 16, newest is 19.
    assert_eq!(*q.get_at(0).unwrap(), 16);
    assert_eq!(*q.get_at(3).unwrap(), 19);
    assert!(q.get_at(4).is_none());
}

#[test]
fn queue_fill_with_sets_every_slot() {
    let mut q: Queue<i64> = Queue::new(6);
    q.push(42);
    q.fill_with(7);
    assert_eq!(q.get_items_in_q(), 6);
    assert_eq!(q.get_length(), 6);
    assert_eq!(*q.get_at(0).unwrap(), 7);
    assert_eq!(*q.get_at(5).unwrap(), 7);
    assert!(q.get_at(6).is_none());
}
