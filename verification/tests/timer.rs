use eventloop_async_research::runtime::timer::{Timer, TimerQueue};
use std::cmp::Ordering;

fn timer(when: u64, seq: u64, task: &'static str) -> Timer<&'static str> {
    Timer { when, seq, task }
}

#[test]
fn timer_cmp_orders_by_deadline_then_sequence() {
    assert_eq!(timer(1, 9, "a").cmp(&timer(2, 0, "b")), Ordering::Less);
    assert_eq!(timer(2, 0, "a").cmp(&timer(1, 9, "b")), Ordering::Greater);
    assert_eq!(timer(5, 1, "a").cmp(&timer(5, 2, "b")), Ordering::Less);
    assert_eq!(timer(5, 2, "a").cmp(&timer(5, 1, "b")), Ordering::Greater);
    assert_eq!(timer(5, 2, "a").cmp(&timer(5, 2, "b")), Ordering::Equal);
}

#[test]
fn timer_eq_ignores_the_task() {
    assert!(timer(5, 2, "a") == timer(5, 2, "b"));
    assert!(timer(5, 2, "a") != timer(5, 3, "a"));
    assert!(timer(5, 2, "a") != timer(6, 2, "a"));
}

#[test]
fn timer_partial_cmp_agrees_with_cmp() {
    assert_eq!(timer(1, 0, "a").partial_cmp(&timer(1, 1, "b")), Some(Ordering::Less));
    assert_eq!(timer(1, 1, "a").partial_cmp(&timer(1, 1, "b")), Some(Ordering::Equal));
    assert_eq!(timer(2, 0, "a").partial_cmp(&timer(1, 1, "b")), Some(Ordering::Greater));
    assert!(timer(1, 0, "a") < timer(1, 1, "b"));
    assert!(timer(3, 0, "a") > timer(1, 1, "b"));
}

#[test]
fn timer_queue_pops_in_deadline_order() {
    let mut q = TimerQueue::new();
    assert!(q.is_empty());
    q.push(timer(30, 0, "late"));
    q.push(timer(10, 1, "early"));
    q.push(timer(20, 2, "middle"));
    assert_eq!(q.len(), 3);
    assert_eq!(q.peek().map(|t| t.task), Some("early"));
    assert_eq!(q.pop().map(|t| t.task), Some("early"));
    assert_eq!(q.pop().map(|t| t.task), Some("middle"));
    assert_eq!(q.pop().map(|t| t.task), Some("late"));
    assert!(q.pop().is_none());
    assert!(q.peek().is_none());
}

#[test]
fn timer_queue_keeps_insertion_order_for_equal_deadlines() {
    let mut q = TimerQueue::new();
    q.push(timer(10, 0, "first"));
    q.push(timer(10, 1, "second"));
    q.push(timer(5, 2, "sooner"));
    q.push(timer(10, 3, "third"));
    let mut order = Vec::new();
    while let Some(t) = q.pop() {
        order.push(t.task);
    }
    assert_eq!(order, vec!["sooner", "first", "second", "third"]);
}

#[test]
fn timer_queue_keeps_insertion_order_for_equal_keys() {
    let mut q = TimerQueue::new();
    q.push(timer(10, 7, "first"));
    q.push(timer(10, 7, "second"));
    assert_eq!(q.pop().map(|t| t.task), Some("first"));
    assert_eq!(q.pop().map(|t| t.task), Some("second"));
}

#[test]
fn timer_queue_wrapped_sequence_fires_first() {
    let mut q = TimerQueue::new();
    q.push(timer(10, u64::MAX, "before the wrap"));
    q.push(timer(10, 0, "after the wrap"));
    assert_eq!(q.pop().map(|t| t.task), Some("after the wrap"));
    assert_eq!(q.pop().map(|t| t.task), Some("before the wrap"));
}

#[test]
fn timer_queue_pop_expired_respects_the_clock() {
    let mut q = TimerQueue::new();
    q.push(timer(10, 0, "a"));
    q.push(timer(20, 1, "b"));
    assert!(q.pop_expired(9).is_none());
    assert_eq!(q.len(), 2);
    assert_eq!(q.pop_expired(10).map(|t| t.task), Some("a"));
    assert!(q.pop_expired(19).is_none());
    assert_eq!(q.pop_expired(u64::MAX).map(|t| t.task), Some("b"));
    assert!(q.pop_expired(u64::MAX).is_none());
}
