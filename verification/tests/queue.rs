use eventloop_async_research::async_rt::queue::AsyncQueue;
use eventloop_async_research::async_rt::task_group::TaskGroup;
use eventloop_async_research::async_rt::time::{sleep, Sleep, SleepPoll};
use eventloop_async_research::async_rt::types::Poll;

#[test]
fn queue_pops_in_push_order() {
    let mut q: AsyncQueue<&'static str, u32> = AsyncQueue::new();
    assert_eq!(q.push("a"), None);
    assert_eq!(q.push("b"), None);
    assert_eq!(q.len(), 2);
    assert_eq!(q.pop(1), Poll::Ready(Some("a")));
    assert_eq!(q.pop(1), Poll::Ready(Some("b")));
    assert_eq!(q.pop(1), Poll::Pending);
}

#[test]
fn queue_push_wakes_the_waiting_reader() {
    let mut q: AsyncQueue<&'static str, u32> = AsyncQueue::new();
    assert_eq!(q.pop(1), Poll::Pending);
    assert_eq!(q.pop(2), Poll::Pending);
    assert_eq!(q.push("a"), Some(2));
    assert_eq!(q.push("b"), None);
    assert_eq!(q.pop(3), Poll::Ready(Some("a")));
}

#[test]
fn queue_pop_on_closed_empty_queue_is_none() {
    let mut q: AsyncQueue<&'static str, u32> = AsyncQueue::new();
    assert!(!q.is_closed());
    assert_eq!(q.pop(1), Poll::Pending);
    assert_eq!(q.close(), Some(1));
    assert!(q.is_closed());
    assert_eq!(q.pop(2), Poll::Ready(None));
    assert_eq!(q.pop(3), Poll::Ready(None));
    assert_eq!(q.close(), None);
}

#[test]
fn queue_closed_with_items_drains_before_none() {
    let mut q: AsyncQueue<&'static str, u32> = AsyncQueue::new();
    let _ = q.push("a");
    let _ = q.push("b");
    assert_eq!(q.close(), None);
    assert_eq!(q.pop(1), Poll::Ready(Some("a")));
    assert_eq!(q.pop(1), Poll::Ready(Some("b")));
    assert_eq!(q.pop(1), Poll::Ready(None));
}

#[test]
fn queue_push_after_close_is_dropped() {
    let mut q: AsyncQueue<&'static str, u32> = AsyncQueue::new();
    let _ = q.close();
    assert_eq!(q.push("a"), None);
    assert_eq!(q.len(), 0);
    assert_eq!(q.pop(1), Poll::Ready(None));
}

#[test]
fn broadcast_reaches_every_outbox_in_order() {
    let mut outboxes: Vec<AsyncQueue<String, u32>> =
        vec![AsyncQueue::new(), AsyncQueue::new(), AsyncQueue::new()];
    for line in ["user#1: hello", "user#1: bye", "[ChatServer] user#1 left (2 online)"] {
        for outbox in outboxes.iter_mut().skip(1) {
            let _ = outbox.push(line.to_string());
        }
    }
    assert_eq!(outboxes[0].pop(0), Poll::Pending);
    for outbox in outboxes.iter_mut().skip(1) {
        assert_eq!(outbox.pop(0), Poll::Ready(Some("user#1: hello".to_string())));
        assert_eq!(outbox.pop(0), Poll::Ready(Some("user#1: bye".to_string())));
        assert_eq!(
            outbox.pop(0),
            Poll::Ready(Some("[ChatServer] user#1 left (2 online)".to_string()))
        );
        let _ = outbox.close();
        assert_eq!(outbox.pop(0), Poll::Ready(None));
    }
}

#[test]
fn task_group_joins_when_the_last_member_finishes() {
    let mut g: TaskGroup<u32> = TaskGroup::new();
    assert_eq!(g.join(1), Poll::Ready(()));
    g.spawn();
    g.spawn();
    assert_eq!(g.active(), 2);
    assert_eq!(g.join(2), Poll::Pending);
    assert_eq!(g.finish(), None);
    assert_eq!(g.join(3), Poll::Pending);
    assert_eq!(g.finish(), Some(3));
    assert_eq!(g.active(), 0);
    assert_eq!(g.join(4), Poll::Ready(()));
}

#[test]
fn task_group_can_be_used_again_after_join() {
    let mut g: TaskGroup<u32> = TaskGroup::new();
    g.spawn();
    assert_eq!(g.finish(), None);
    assert_eq!(g.join(1), Poll::Ready(()));
    g.spawn();
    assert_eq!(g.join(2), Poll::Pending);
    assert_eq!(g.finish(), Some(2));
}

#[test]
fn sleep_starts_its_timer_once() {
    let mut s: Sleep<u32> = sleep(1_000);
    assert_eq!(s.poll(1), SleepPoll::Pending(Some(1_000)));
    assert_eq!(s.poll(2), SleepPoll::Pending(None));
    assert_eq!(s.fire(), Some(2));
    assert_eq!(s.poll(3), SleepPoll::Ready);
    assert_eq!(s.poll(4), SleepPoll::Ready);
}

#[test]
fn sleep_fired_before_a_second_poll_wakes_the_first_waker() {
    let mut s: Sleep<u32> = sleep(0);
    assert_eq!(s.poll(1), SleepPoll::Pending(Some(0)));
    assert_eq!(s.fire(), Some(1));
    assert_eq!(s.fire(), None);
    assert_eq!(s.poll(2), SleepPoll::Ready);
}
