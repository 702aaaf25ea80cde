use schedule::{DesiredTime, NextItem, Queue};

#[test]
fn returns_never_when_queue_is_empty() {
    //given
    let mut queue = Queue::<()>::new();
    //when
    let next = queue.next();
    //then
    assert_eq!(NextItem::Never, next);
}

#[test]
fn returns_data_when_desired_time_was_now() {
    //given
    let mut queue = Queue::<()>::new();
    queue.put((), DesiredTime::now());
    //when
    let next = queue.next();
    //then
    assert_eq!(NextItem::Now(()), next);
}

#[test]
fn returns_data_with_smalles_desired_time() {
    //given
    let now = DesiredTime::now();
    let mut queue = Queue::<i32>::new();
    queue.put(0, now);
    queue.put(1, now.plus_millis(1));
    //when
    let next = queue.next();
    //then
    assert_eq!(NextItem::Now(0), next);
}

#[test]
fn empty_queue_polls_never_at_any_instant() {
    let mut queue = Queue::<i32>::new();
    assert_eq!(NextItem::Never, queue.next_at(0));
    assert_eq!(NextItem::Never, queue.next_at(i64::MAX));
    assert_eq!(0, queue.len());
}

#[test]
fn ready_at_exact_instant_is_delivered() {
    let mut queue = Queue::<i32>::new();
    queue.put(7, DesiredTime::at_millis(500));
    assert_eq!(NextItem::Now(7), queue.next_at(500));
    assert_eq!(0, queue.len());
}

#[test]
fn immediate_value_precedes_delayed_value() {
    let base = DesiredTime::at_millis(1_000);
    let mut queue = Queue::<i32>::new();
    queue.put(1, base.plus_millis(10));
    queue.put(0, base);
    assert_eq!(NextItem::Now(0), queue.next_at(1_000));
    assert_eq!(NextItem::After(base.plus_millis(10)), queue.next_at(1_000));
    assert_eq!(NextItem::Now(1), queue.next_at(1_010));
    assert_eq!(NextItem::Never, queue.next_at(1_010));
}

#[test]
fn not_ready_item_is_not_removed() {
    let future = DesiredTime::at_millis(2_000);
    let mut queue = Queue::<i32>::new();
    queue.put(9, future);
    assert_eq!(NextItem::After(future), queue.next_at(1_000));
    assert_eq!(1, queue.len());
    assert_eq!(NextItem::After(future), queue.next_at(1_999));
    assert_eq!(1, queue.len());
    assert_eq!(NextItem::Now(9), queue.next_at(2_000));
}

#[test]
fn wait_reports_earliest_future_time() {
    let base: i64 = 10_000;
    let mut queue = Queue::<i32>::new();
    queue.put(5, DesiredTime::at_millis(base + 1));
    queue.put(6, DesiredTime::at_millis(base + 2));
    match queue.next_at(base) {
        NextItem::After(t) => {
            let wait = t.millis_until_at(base);
            assert!(wait > 0);
            assert!(wait <= 2);
            assert_eq!(1, wait);
        }
        other => panic!("expected a wait, got {:?}", other),
    }
    assert_eq!(2, queue.len());
}

#[test]
fn equal_times_deliver_in_insertion_order() {
    let t = DesiredTime::at_millis(5);
    let mut queue = Queue::<i32>::new();
    queue.put(1, t);
    queue.put(2, t);
    queue.put(3, t);
    assert_eq!(NextItem::Now(1), queue.next_at(5));
    assert_eq!(NextItem::Now(2), queue.next_at(5));
    assert_eq!(NextItem::Now(3), queue.next_at(5));
}

#[test]
fn drain_takes_exactly_the_ready_items_in_time_order() {
    let mut queue = Queue::<i32>::new();
    queue.put(30, DesiredTime::at_millis(300));
    queue.put(10, DesiredTime::at_millis(100));
    queue.put(40, DesiredTime::at_millis(400));
    queue.put(20, DesiredTime::at_millis(200));
    let delivered = queue.drain_ready_at(250);
    assert_eq!(vec![10, 20], delivered);
    assert_eq!(2, queue.len());
    let rest = queue.drain_ready_at(400);
    assert_eq!(vec![30, 40], rest);
    assert_eq!(0, queue.len());
}

#[test]
fn drain_on_empty_queue_delivers_nothing() {
    let mut queue = Queue::<i32>::new();
    let delivered = queue.drain_ready_at(1_000);
    assert!(delivered.is_empty());
}
