use lockstep::queue::Queue;

#[test]
fn new_queue_is_empty() {
    let queue: Queue<i32> = Queue::new();
    assert_eq!(queue.len(), 0);
}

#[test]
fn get_returns_newest_item() {
    let mut queue = Queue::new();
    queue.push(1);
    queue.push(2);
    assert_eq!(queue.get(), Some(2));
    assert_eq!(queue.len(), 1);
    assert_eq!(queue.get(), Some(1));
    assert_eq!(queue.get(), None);
    assert_eq!(queue.len(), 0);
}

#[test]
fn reset_removes_at_most_five_items() {
    let mut queue = Queue::new();
    for value in 0..7 {
        queue.push(value);
    }
    queue.reset();
    assert_eq!(queue.len(), 2);
    assert_eq!(queue.get(), Some(1));
    queue.reset();
    assert_eq!(queue.len(), 0);
    queue.reset();
    assert_eq!(queue.len(), 0);
}
