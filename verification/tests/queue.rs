use lockfree_queue::{LockFreeQueue, Node};

#[test]
fn test_push_pop() {
    let mut queue = LockFreeQueue::new();
    queue.push(1);
    queue.push(2);
    queue.push(3);

    assert_eq!(queue.pop(), Some(1));
    assert_eq!(queue.pop(), Some(2));
    assert_eq!(queue.pop(), Some(3));
    assert_eq!(queue.pop(), None);
}

#[test]
fn test_empty_queue() {
    let mut queue: LockFreeQueue<i32> = LockFreeQueue::new();
    assert!(queue.is_empty());
    assert_eq!(queue.pop(), None);
}

#[test]
fn fresh_queue_has_length_zero() {
    let queue: LockFreeQueue<u8> = LockFreeQueue::new();
    assert_eq!(queue.len(), 0);
    assert!(queue.is_empty());
    assert!(queue.has_room());
}

#[test]
fn default_queue_is_empty() {
    let mut queue: LockFreeQueue<String> = LockFreeQueue::default();
    assert_eq!(queue.len(), 0);
    assert!(queue.is_empty());
    assert_eq!(queue.pop(), None);
}

#[test]
fn repeated_pops_on_empty_queue_stay_absent() {
    let mut queue: LockFreeQueue<i32> = LockFreeQueue::new();
    for _ in 0..10 {
        assert_eq!(queue.pop(), None);
        assert_eq!(queue.len(), 0);
        assert!(queue.is_empty());
    }
    queue.push(7);
    assert_eq!(queue.len(), 1);
    assert!(!queue.is_empty());
    assert_eq!(queue.pop(), Some(7));
    assert_eq!(queue.pop(), None);
    assert_eq!(queue.pop(), None);
    assert_eq!(queue.len(), 0);
}

#[test]
fn values_leave_in_the_order_they_entered() {
    let mut queue = LockFreeQueue::new();
    for word in ["first", "second", "third", "fourth"] {
        queue.push(word.to_string());
    }
    assert_eq!(queue.pop(), Some("first".to_string()));
    assert_eq!(queue.pop(), Some("second".to_string()));
    queue.push("fifth".to_string());
    assert_eq!(queue.pop(), Some("third".to_string()));
    assert_eq!(queue.pop(), Some("fourth".to_string()));
    assert_eq!(queue.pop(), Some("fifth".to_string()));
    assert_eq!(queue.pop(), None);
}

#[test]
fn equal_values_are_kept_apart() {
    let mut queue = LockFreeQueue::new();
    queue.push(5);
    queue.push(5);
    queue.push(5);
    assert_eq!(queue.len(), 3);
    assert_eq!(queue.pop(), Some(5));
    assert_eq!(queue.pop(), Some(5));
    assert_eq!(queue.len(), 1);
    assert_eq!(queue.pop(), Some(5));
    assert_eq!(queue.pop(), None);
}

#[test]
fn length_is_pushed_minus_popped() {
    let mut queue = LockFreeQueue::new();
    for i in 0..100u32 {
        queue.push(i);
        assert_eq!(queue.len(), (i + 1) as usize);
    }
    for i in 0..40u32 {
        assert_eq!(queue.pop(), Some(i));
        assert_eq!(queue.len(), (99 - i) as usize);
    }
    assert_eq!(queue.len(), 60);
    assert!(!queue.is_empty());
}

#[test]
fn queue_refills_after_it_ran_empty() {
    let mut queue = LockFreeQueue::new();
    for round in 0..50u64 {
        queue.push(round);
        queue.push(round + 1000);
        assert_eq!(queue.pop(), Some(round));
        assert_eq!(queue.pop(), Some(round + 1000));
        assert_eq!(queue.pop(), None);
        assert!(queue.is_empty());
    }
}

#[test]
fn many_values_keep_their_order() {
    let mut queue = LockFreeQueue::new();
    for i in 0..10_000u32 {
        queue.push(i);
    }
    assert_eq!(queue.len(), 10_000);
    for i in 0..10_000u32 {
        assert_eq!(queue.pop(), Some(i));
    }
    assert_eq!(queue.pop(), None);
    assert_eq!(queue.len(), 0);
}

#[test]
fn new_cell_holds_its_value_and_no_link() {
    let node = Node::new(Some(42));
    assert_eq!(node.value, Some(42));
    assert_eq!(node.next, None);
    let empty: Node<i32> = Node::new(None);
    assert_eq!(empty.value, None);
    assert_eq!(empty.next, None);
}

#[test]
fn sentinel_holds_nothing() {
    let node: Node<String> = Node::sentinel();
    assert_eq!(node.value, None);
    assert_eq!(node.next, None);
}

#[test]
fn teardown_hands_out_what_is_left_in_order() {
    let mut queue = LockFreeQueue::new();
    for i in 0..6 {
        queue.push(i);
    }
    assert_eq!(queue.pop(), Some(0));
    assert_eq!(queue.pop(), Some(1));
    assert_eq!(queue.teardown(), vec![2, 3, 4, 5]);
}

#[test]
fn teardown_of_an_empty_queue_hands_out_nothing() {
    let queue: LockFreeQueue<String> = LockFreeQueue::new();
    assert_eq!(queue.teardown(), Vec::<String>::new());
    let mut used = LockFreeQueue::new();
    used.push(1);
    assert_eq!(used.pop(), Some(1));
    assert_eq!(used.teardown(), Vec::<i32>::new());
}
