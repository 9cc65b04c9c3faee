use smb::runtime::preparation_order::OrderedCompletionQueue;

#[test]
fn out_of_order_completions_are_released_in_reservation_order() {
    let mut queue = OrderedCompletionQueue::default();
    assert!(queue.is_empty());
    queue.reserve(10);
    assert!(!queue.is_empty());
    queue.reserve(20);
    queue.reserve(30);

    assert!(queue.complete(20, "second").is_empty());
    assert_eq!(queue.complete(10, "first"), ["first", "second"]);
    assert_eq!(queue.complete(30, "third"), ["third"]);
    assert!(queue.is_empty());
}

#[test]
fn all_that_is_released_is_the_completed_front_of_the_reservations() {
    let mut queue = OrderedCompletionQueue::default();
    let mut released: Vec<&str> = Vec::new();
    queue.reserve(7);
    queue.reserve(3);
    released.extend(queue.complete(3, "b"));
    assert!(released.is_empty());
    queue.reserve(5);
    released.extend(queue.complete(7, "a"));
    assert_eq!(released, ["a", "b"]);
    queue.reserve(1);
    released.extend(queue.complete(1, "d"));
    assert_eq!(released, ["a", "b"]);
    assert!(!queue.is_empty());
    released.extend(queue.complete(5, "c"));
    assert_eq!(released, ["a", "b", "c", "d"]);
    assert!(queue.is_empty());
}
