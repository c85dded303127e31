use queue_stack::Queue;

#[test]
fn test_new_queue_is_empty() {
    let mut q = Queue::<i32>::new();
    assert!(q.is_empty());
    assert_eq!(q.size(), 0);
    assert_eq!(q.peek(), Err("Queue is empty"));
    assert_eq!(q.dequeue(), Err("Queue is empty"));
    assert_eq!(q.size(), 0);
    assert!(q.is_empty());
}

#[test]
fn test_default_queue_is_empty() {
    let mut q: Queue<i32> = Default::default();
    assert!(q.is_empty());
    assert_eq!(q.size(), 0);
    assert_eq!(q.dequeue(), Err("Queue is empty"));
    q.enqueue(1);
    assert_eq!(q.dequeue(), Ok(1));
}

#[test]
fn test_queue_is_first_in_first_out() {
    let mut q = Queue::<i32>::new();
    q.enqueue(1);
    q.enqueue(2);
    q.enqueue(3);
    assert_eq!(q.size(), 3);
    assert_eq!(q.dequeue(), Ok(1));
    assert_eq!(q.dequeue(), Ok(2));
    q.enqueue(4);
    assert_eq!(q.dequeue(), Ok(3));
    assert_eq!(q.dequeue(), Ok(4));
    assert_eq!(q.dequeue(), Err("Queue is empty"));
    assert!(q.is_empty());
}

#[test]
fn test_queue_peek_shows_front_and_keeps_it() {
    let mut q = Queue::<i32>::new();
    q.enqueue(10);
    q.enqueue(20);
    assert_eq!(q.peek(), Ok(&10));
    assert_eq!(q.peek(), Ok(&10));
    assert_eq!(q.size(), 2);
    assert_eq!(q.dequeue(), Ok(10));
    assert_eq!(q.peek(), Ok(&20));
    assert_eq!(q.size(), 1);
}

#[test]
fn test_queue_size_follows_enqueue_and_dequeue() {
    let mut q = Queue::<u8>::new();
    for i in 0..50u8 {
        q.enqueue(i);
        assert_eq!(q.size(), i as usize + 1);
        assert_eq!(q.is_empty(), false);
    }
    for i in 0..50u8 {
        assert_eq!(q.dequeue(), Ok(i));
        assert_eq!(q.size(), 49 - i as usize);
    }
    assert_eq!(q.is_empty(), true);
}

#[test]
fn test_queue_debug_shows_elements() {
    let mut q = Queue::<i32>::new();
    q.enqueue(1);
    q.enqueue(2);
    assert_eq!(format!("{:?}", q), "Queue { elements: [1, 2] }");
}
