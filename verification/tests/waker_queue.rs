use vilya::waker_queue::{SubmitWaitQueue, SubmitWaitQueueInner, WakerQueue};

#[test]
fn wakers_leave_in_the_order_they_came() {
    let mut queue = WakerQueue::new();
    assert_eq!(queue.pop(), None);
    for waker in 0..100u64 {
        queue.push(waker * 3);
    }
    for waker in 0..100u64 {
        assert_eq!(queue.pop(), Some(waker * 3));
    }
    assert_eq!(queue.pop(), None);
}

#[test]
fn a_fresh_queue_wakes_one_at_a_time() {
    let mut queue = SubmitWaitQueue::new();
    queue.add_free_entries(64);
    for waker in 1..=5u64 {
        queue.push(waker);
    }
    assert_eq!(queue.wake(), vec![1]);
    assert_eq!(queue.wake(), vec![2]);
    queue.push(6);
    assert_eq!(queue.wake(), vec![3]);
    assert_eq!(queue.wake(), vec![4]);
    assert_eq!(queue.wake(), vec![5]);
    assert_eq!(queue.wake(), vec![6]);
    assert_eq!(queue.wake(), Vec::<u64>::new());
}

#[test]
fn a_deficit_empties_the_queue() {
    let mut queue = SubmitWaitQueueInner::new();
    queue.add_free_entries(10);
    queue.add_free_entries(-15);
    for waker in 1..=5u64 {
        queue.push(waker);
    }
    // The first call sets the counter to -5, the second never brings it to zero.
    assert_eq!(queue.wake(), vec![1]);
    assert_eq!(queue.wake(), vec![2, 3, 4, 5]);
    assert_eq!(queue.wake(), Vec::<u64>::new());
    queue.push(6);
    queue.push(7);
    assert_eq!(queue.wake(), vec![6, 7]);
}

#[test]
fn free_entries_wrap_around() {
    let mut queue = SubmitWaitQueue::new();
    queue.add_free_entries(isize::MAX);
    queue.add_free_entries(2);
    queue.push(1);
    queue.push(2);
    queue.push(3);
    assert_eq!(queue.wake(), vec![1]);
    assert_eq!(queue.wake(), vec![2, 3]);
}
