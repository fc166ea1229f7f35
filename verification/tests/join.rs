use eventloop_async_research::async_rt::executor::Task;
use eventloop_async_research::async_rt::join::{
    join_all, select2, select_any, JoinError, JoinHandle, Select2,
};
use eventloop_async_research::async_rt::types::Poll;
use std::cell::RefCell;

type Handle = RefCell<JoinHandle<&'static str, u32>>;

fn pending() -> Handle {
    RefCell::new(JoinHandle::new())
}

fn done(v: &'static str) -> Handle {
    let h = pending();
    assert_eq!(h.borrow_mut().complete(v), None);
    h
}

fn poll_with(waker: u32) -> impl Fn(&Handle) -> Poll<Result<&'static str, JoinError>> {
    move |h: &Handle| h.borrow_mut().poll(waker)
}

#[test]
fn join_waits_then_yields_the_result() {
    let mut h: JoinHandle<u8, u32> = JoinHandle::new();
    assert!(!h.is_finished());
    assert_eq!(h.poll(1), Poll::Pending);
    assert_eq!(h.poll(2), Poll::Pending);
    assert_eq!(h.complete(7), Some(2));
    assert!(h.is_finished());
    assert_eq!(h.poll(3), Poll::Ready(Ok(7)));
    assert_eq!(h.poll(4), Poll::Pending);
}

#[test]
fn complete_without_a_joiner_stores_the_result() {
    let mut h: JoinHandle<u8, u32> = JoinHandle::new();
    assert_eq!(h.complete(7), None);
    assert!(h.is_finished());
    assert_eq!(h.poll(1), Poll::Ready(Ok(7)));
}

#[test]
fn abort_before_poll_yields_cancelled() {
    let mut task = Task::new("sleep forever");
    assert!(task.schedule());
    let mut h: JoinHandle<u8, u32> = JoinHandle::new();
    let effects = h.abort(&mut task);
    assert!(!effects.post);
    assert_eq!(effects.wake, None);
    assert!(task.is_cancelled());
    assert_eq!(h.poll(1), Poll::Ready(Err(JoinError::Cancelled)));
    assert_eq!(task.poll(), None);
    assert!(task.is_done());
    assert!(!task.holds_future());
}

#[test]
fn abort_releases_a_waiting_joiner_and_posts_a_poll() {
    let mut task = Task::new("fut");
    assert!(task.schedule());
    assert_eq!(task.poll(), Some("fut"));
    task.settle("fut", false);
    let mut h: JoinHandle<u8, u32> = JoinHandle::new();
    assert_eq!(h.poll(9), Poll::Pending);
    let effects = h.abort(&mut task);
    assert!(effects.post);
    assert_eq!(effects.wake, Some(9));
    assert_eq!(h.poll(10), Poll::Ready(Err(JoinError::Cancelled)));
}

#[test]
fn abort_after_completion_still_yields_cancelled() {
    let mut task = Task::new("fut");
    let mut h: JoinHandle<u8, u32> = JoinHandle::new();
    assert_eq!(h.complete(7), None);
    let _ = h.abort(&mut task);
    assert_eq!(h.poll(1), Poll::Ready(Err(JoinError::Cancelled)));
}

#[test]
fn complete_after_abort_discards_the_value() {
    let mut task = Task::new("fut");
    let mut h: JoinHandle<u8, u32> = JoinHandle::new();
    assert_eq!(h.poll(5), Poll::Pending);
    let effects = h.abort(&mut task);
    assert_eq!(effects.wake, Some(5));
    assert_eq!(h.complete(7), None);
    assert!(!h.is_finished());
    assert_eq!(h.poll(1), Poll::Ready(Err(JoinError::Cancelled)));
}

#[test]
fn select_any_picks_the_lower_index_on_ties() {
    let mut sel = select_any(vec![pending(), done("b"), done("c")]);
    match sel.poll(poll_with(1)) {
        Poll::Ready(s) => {
            assert_eq!(s.index, 1);
            assert_eq!(s.result, Ok("b"));
            assert_eq!(s.remaining.len(), 2);
            assert_eq!(s.remaining[0].borrow_mut().complete("a"), Some(1));
            assert_eq!(s.remaining[1].borrow_mut().poll(2), Poll::Ready(Ok("c")));
        }
        Poll::Pending => panic!("one handle was ready"),
    }
}

#[test]
fn select_any_registers_every_waker_when_none_is_ready() {
    let mut sel = select_any(vec![pending(), pending()]);
    assert!(matches!(sel.poll(poll_with(7)), Poll::Pending));
    assert!(matches!(sel.poll(poll_with(8)), Poll::Pending));
    let mut again = select_any(vec![pending(), pending(), pending()]);
    assert!(matches!(again.poll(poll_with(3)), Poll::Pending));
    match again.poll(|h: &Handle| {
        let woken = h.borrow_mut().complete("x");
        assert_eq!(woken, Some(3));
        h.borrow_mut().poll(4)
    }) {
        Poll::Ready(s) => {
            assert_eq!(s.index, 0);
            assert_eq!(s.remaining.len(), 2);
        }
        Poll::Pending => panic!("first handle completed"),
    }
}

#[test]
fn select_any_reports_cancellation_as_a_result() {
    let mut task = Task::new("fut");
    let aborted = pending();
    let _ = aborted.borrow_mut().abort(&mut task);
    let mut sel = select_any(vec![pending(), aborted]);
    match sel.poll(poll_with(1)) {
        Poll::Ready(s) => {
            assert_eq!(s.index, 1);
            assert_eq!(s.result, Err(JoinError::Cancelled));
            assert_eq!(s.remaining.len(), 1);
        }
        Poll::Pending => panic!("the aborted handle was ready"),
    }
}

#[test]
fn join_all_keeps_handle_order() {
    let handles = vec![pending(), pending(), pending()];
    let mut all = join_all(handles);
    assert!(matches!(all.poll(poll_with(1)), Poll::Pending));
    let mut turn = 0;
    let script = RefCell::new(vec![Some("1"), None, Some("2"), Some("3")]);
    loop {
        let polled = all.poll(|h: &Handle| {
            let next = script.borrow_mut().remove(0);
            if let Some(v) = next {
                let _ = h.borrow_mut().complete(v);
            }
            h.borrow_mut().poll(1)
        });
        turn += 1;
        match polled {
            Poll::Ready(results) => {
                assert_eq!(results, vec![Ok("1"), Ok("2"), Ok("3")]);
                break;
            }
            Poll::Pending => assert_eq!(turn, 1),
        }
    }
    assert_eq!(turn, 2);
}

#[test]
fn join_all_does_not_stop_at_a_failure() {
    let mut task = Task::new("fut");
    let aborted = pending();
    let _ = aborted.borrow_mut().abort(&mut task);
    let mut all = join_all(vec![done("a"), aborted, done("c")]);
    match all.poll(poll_with(1)) {
        Poll::Ready(results) => {
            assert_eq!(results, vec![Ok("a"), Err(JoinError::Cancelled), Ok("c")]);
        }
        Poll::Pending => panic!("all handles were ready"),
    }
}

#[test]
fn join_all_of_nothing_is_ready() {
    let mut all = join_all(Vec::<Handle>::new());
    match all.poll(poll_with(1)) {
        Poll::Ready(results) => assert!(results.is_empty()),
        Poll::Pending => panic!("nothing to wait for"),
    }
}

#[test]
fn select2_prefers_the_first_side() {
    let mut both = select2(done("a"), done("b"));
    assert!(matches!(both.poll(poll_with(1)), Poll::Ready(Select2::A(Ok("a")))));
    let mut second = select2(pending(), done("b"));
    assert!(matches!(second.poll(poll_with(1)), Poll::Ready(Select2::B(Ok("b")))));
    let mut none = select2(pending(), pending());
    assert!(matches!(none.poll(poll_with(1)), Poll::Pending));
}
