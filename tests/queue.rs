use dummysite_controller::crd::ObjectRef;
use dummysite_controller::queue::WorkQueue;

#[test]
fn notifications_coalesce_into_one_entry() {
    let mut q = WorkQueue::new();
    let r = ObjectRef::new("default", "demo");
    q.enqueue(&r, 10);
    q.enqueue(&r, 11);
    q.enqueue(&r, 12);
    assert_eq!(q.pending_len(), 1);
    let got = q.dequeue(12).unwrap();
    assert!(got.same_as(&r));
    assert_eq!(q.pending_len(), 0);
    assert_eq!(q.in_flight_len(), 1);
    q.complete(&r, None, 20);
    assert_eq!(q.in_flight_len(), 0);
    assert_eq!(q.pending_len(), 0);
    q.enqueue(&r, 21);
    assert_eq!(q.pending_len(), 1);
    assert!(q.dequeue(21).unwrap().same_as(&r));
}

#[test]
fn in_flight_object_is_not_handed_out_twice() {
    let mut q = WorkQueue::new();
    let r = ObjectRef::new("default", "demo");
    q.enqueue(&r, 0);
    assert!(q.dequeue(0).is_some());
    assert!(q.in_flight(&r));
    q.enqueue(&r, 1);
    assert_eq!(q.pending_len(), 0);
    assert!(q.dequeue(100).is_none());
    q.complete(&r, Some(300), 5);
    assert!(!q.in_flight(&r));
    // notified during the pass: due at once rather than after the delay
    assert!(q.dequeue(5).unwrap().same_as(&r));
}

#[test]
fn requeue_waits_for_the_delay() {
    let mut q = WorkQueue::new();
    let r = ObjectRef::new("default", "demo");
    q.enqueue(&r, 0);
    q.dequeue(0).unwrap();
    q.complete(&r, Some(60), 100);
    assert!(q.dequeue(159).is_none());
    assert!(q.dequeue(160).unwrap().same_as(&r));
}

#[test]
fn notification_advances_a_backed_off_entry() {
    let mut q = WorkQueue::new();
    let r = ObjectRef::new("default", "demo");
    q.enqueue(&r, 0);
    q.dequeue(0).unwrap();
    q.complete(&r, Some(300), 0);
    q.enqueue(&r, 10);
    assert_eq!(q.pending_len(), 1);
    assert!(q.dequeue(10).unwrap().same_as(&r));
}

#[test]
fn distinct_objects_are_served_in_order() {
    let mut q = WorkQueue::new();
    let a = ObjectRef::new("default", "a");
    let b = ObjectRef::new("default", "b");
    q.enqueue(&a, 5);
    q.enqueue(&b, 1);
    assert!(q.dequeue(2).unwrap().same_as(&b));
    assert!(q.dequeue(5).unwrap().same_as(&a));
    assert_eq!(q.in_flight_len(), 2);
    q.complete(&a, None, 6);
    q.complete(&b, Some(10), u64::MAX - 5);
    assert_eq!(q.pending_len(), 1);
    assert!(q.dequeue(u64::MAX - 1).is_none());
    assert!(q.dequeue(u64::MAX).unwrap().same_as(&b));
}
