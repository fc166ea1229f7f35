//! Whole-runtime scenarios on a virtual clock: a small single-threaded
//! driver performs the loop's actions, and the waits only advance time.

use eventloop_async_research::async_rt::executor::{Executor, Task};
use eventloop_async_research::async_rt::join::{
    join_all, select_any, JoinAll, JoinError, JoinHandle, SelectAnyFuture,
};
use eventloop_async_research::async_rt::time::{sleep, Sleep, SleepPoll};
use eventloop_async_research::async_rt::types::Poll as CorePoll;
use eventloop_async_research::runtime::event_loop::{Action, Event, EventLoop};
use eventloop_async_research::runtime::mailbox::Mailbox;
use eventloop_async_research::runtime::types::Ready;
use std::future::Future;
use std::pin::Pin;
use std::sync::atomic::{AtomicBool, AtomicUsize, Ordering};
use std::sync::{Arc, Mutex};
use std::task::{Context, Poll, Wake, Waker};

const UNIT: u64 = 1_000_000_000;

type TaskFn = Box<dyn FnOnce(&mut Rt) + Send>;
type Callback = Box<dyn FnMut(&mut Rt, Ready)>;
type BoxFut = Pin<Box<dyn Future<Output = ()> + Send>>;

struct Shared {
    mailbox: Mutex<Mailbox<TaskFn>>,
    woken: AtomicBool,
}

type Handle = Arc<Shared>;

fn post(handle: &Handle, f: TaskFn) {
    if handle.mailbox.lock().unwrap().post(f).is_ok() {
        handle.woken.store(true, Ordering::SeqCst);
    }
}

struct Rt {
    core: EventLoop<TaskFn, Callback>,
    handle: Handle,
    now: u64,
}

struct TaskCell {
    task: Mutex<Task<BoxFut>>,
    handle: Handle,
    polls: AtomicUsize,
}

impl Wake for TaskCell {
    fn wake(self: Arc<Self>) {
        schedule(&self);
    }
}

fn post_poll(cell: &Arc<TaskCell>) {
    let c = cell.clone();
    post(&cell.handle, Box::new(move |_rt: &mut Rt| visit(c)));
}

fn schedule(cell: &Arc<TaskCell>) {
    let must_post = cell.task.lock().unwrap().schedule();
    if must_post {
        post_poll(cell);
    }
}

fn visit(cell: Arc<TaskCell>) {
    let fut = cell.task.lock().unwrap().poll();
    if let Some(mut fut) = fut {
        cell.polls.fetch_add(1, Ordering::SeqCst);
        let waker = Waker::from(cell.clone());
        let mut cx = Context::from_waker(&waker);
        let finished = fut.as_mut().poll(&mut cx).is_ready();
        cell.task.lock().unwrap().settle(fut, finished);
    }
}

struct Join<T> {
    state: Arc<Mutex<JoinHandle<T, Waker>>>,
    cell: Arc<TaskCell>,
    handle: Handle,
}

impl<T> Join<T> {
    fn abort(&self) {
        let effects = {
            let mut state = self.state.lock().unwrap();
            let mut task = self.cell.task.lock().unwrap();
            state.abort(&mut task)
        };
        if effects.post {
            post_poll(&self.cell);
        }
        if let Some(w) = effects.wake {
            w.wake();
        }
    }

    fn poll_join(&self, waker: &Waker) -> CorePoll<Result<T, JoinError>> {
        self.state.lock().unwrap().poll(waker.clone())
    }
}

impl<T> Future for Join<T> {
    type Output = Result<T, JoinError>;

    fn poll(self: Pin<&mut Self>, cx: &mut Context<'_>) -> Poll<Self::Output> {
        match self.poll_join(cx.waker()) {
            CorePoll::Ready(r) => Poll::Ready(r),
            CorePoll::Pending => Poll::Pending,
        }
    }
}

fn spawn<T, F>(handle: &Handle, fut: F) -> Join<T>
where
    T: Send + 'static,
    F: Future<Output = T> + Send + 'static,
{
    let state: Arc<Mutex<JoinHandle<T, Waker>>> = Arc::new(Mutex::new(JoinHandle::new()));
    let state2 = state.clone();
    let wrapped: BoxFut = Box::pin(async move {
        let v = fut.await;
        let wake = state2.lock().unwrap().complete(v);
        if let Some(w) = wake {
            w.wake();
        }
    });
    let task = Executor::new(()).spawn(wrapped);
    let cell = Arc::new(TaskCell {
        task: Mutex::new(task),
        handle: handle.clone(),
        polls: AtomicUsize::new(0),
    });
    post_poll(&cell);
    Join { state, cell, handle: handle.clone() }
}

struct Sleeping {
    core: Arc<Mutex<Sleep<Waker>>>,
    handle: Handle,
}

fn sleep_for(handle: &Handle, delay: u64) -> Sleeping {
    Sleeping { core: Arc::new(Mutex::new(sleep(delay))), handle: handle.clone() }
}

impl Future for Sleeping {
    type Output = ();

    fn poll(self: Pin<&mut Self>, cx: &mut Context<'_>) -> Poll<()> {
        let polled = self.core.lock().unwrap().poll(cx.waker().clone());
        match polled {
            SleepPoll::Ready => Poll::Ready(()),
            SleepPoll::Pending(None) => Poll::Pending,
            SleepPoll::Pending(Some(delay)) => {
                let core = self.core.clone();
                post(
                    &self.handle,
                    Box::new(move |rt: &mut Rt| {
                        let now = rt.now;
                        rt.core.post_delayed(
                            now,
                            delay,
                            Box::new(move |_rt: &mut Rt| {
                                let wake = core.lock().unwrap().fire();
                                if let Some(w) = wake {
                                    w.wake();
                                }
                            }),
                        );
                    }),
                );
                Poll::Pending
            }
        }
    }
}

struct Selecting<T> {
    inner: SelectAnyFuture<Join<T>>,
}

impl<T> Future for Selecting<T> {
    type Output = (usize, Result<T, JoinError>, Vec<Join<T>>);

    fn poll(self: Pin<&mut Self>, cx: &mut Context<'_>) -> Poll<Self::Output> {
        let this = self.get_mut();
        let waker = cx.waker();
        match this.inner.poll(|h: &Join<T>| h.poll_join(waker)) {
            CorePoll::Ready(sel) => Poll::Ready((sel.index, sel.result, sel.remaining)),
            CorePoll::Pending => Poll::Pending,
        }
    }
}

impl<T> Unpin for Selecting<T> {}

struct JoiningAll<T> {
    inner: JoinAll<Join<T>, T>,
}

impl<T> Future for JoiningAll<T> {
    type Output = Vec<Result<T, JoinError>>;

    fn poll(self: Pin<&mut Self>, cx: &mut Context<'_>) -> Poll<Self::Output> {
        let this = self.get_mut();
        let waker = cx.waker();
        match this.inner.poll(|h: &Join<T>| h.poll_join(waker)) {
            CorePoll::Ready(all) => Poll::Ready(all),
            CorePoll::Pending => Poll::Pending,
        }
    }
}

impl<T> Unpin for JoiningAll<T> {}

/// Runs `main` to completion on a fresh loop and returns its result with
/// the virtual time at which the loop exited.
fn block_on<T, F, M>(main: M) -> (T, u64)
where
    T: Send + 'static,
    F: Future<Output = T> + Send + 'static,
    M: FnOnce(Handle) -> F,
{
    let handle: Handle =
        Arc::new(Shared { mailbox: Mutex::new(Mailbox::new()), woken: AtomicBool::new(false) });
    let mut rt = Rt { core: EventLoop::new(false), handle: handle.clone(), now: 0 };
    let out = Arc::new(Mutex::new(None));
    let out2 = out.clone();
    let fut = main(handle.clone());
    let exit_handle = handle.clone();
    let _detached = spawn(&handle, async move {
        let v = fut.await;
        *out2.lock().unwrap() = Some(v);
        post(&exit_handle, Box::new(|rt: &mut Rt| rt.core.request_exit()));
    });
    let mut event = Event::Start;
    let mut steps = 0;
    loop {
        steps += 1;
        assert!(steps < 10_000, "the loop does not settle");
        assert!(rt.core.accepts(&event));
        match rt.core.run(event) {
            Action::Drain => {
                rt.handle.woken.store(false, Ordering::SeqCst);
                let tasks = rt.handle.mailbox.lock().unwrap().drain();
                event = Event::Drained(tasks);
            }
            Action::ReadClock => event = Event::Clock(rt.now),
            Action::RunTask(task) => {
                task(&mut rt);
                event = Event::TaskDone;
            }
            Action::Wait(timeout) => {
                if !rt.handle.woken.load(Ordering::SeqCst) {
                    match timeout {
                        Some(t) => rt.now += t,
                        None => panic!("nothing left to wait for"),
                    }
                }
                event = Event::Woken(Vec::new());
            }
            Action::Dispatch { ready, mut callback, .. } => {
                callback(&mut rt, ready);
                event = Event::Dispatched(callback);
            }
            Action::Register { .. } => event = Event::Registered(true),
            Action::Deregister { .. } => event = Event::Deregistered(true),
            Action::Exit => break,
        }
    }
    let result = out.lock().unwrap().take().expect("rt exited without result");
    (result, rt.now)
}

#[test]
fn sleep_ordering_takes_the_longer_sleep() {
    let log = Arc::new(Mutex::new(Vec::new()));
    let log2 = log.clone();
    let ((), elapsed) = block_on(move |h: Handle| async move {
        let (ha, hb) = (h.clone(), h.clone());
        let (la, lb) = (log2.clone(), log2.clone());
        let a = spawn(&h, async move {
            sleep_for(&ha, UNIT).await;
            la.lock().unwrap().push("task1(1s) finished");
        });
        let b = spawn(&h, async move {
            sleep_for(&hb, 3 * UNIT).await;
            lb.lock().unwrap().push("task2(3s) finished");
        });
        b.await.unwrap();
        log2.lock().unwrap().push("gap");
        a.await.unwrap();
    });
    assert_eq!(elapsed, 3 * UNIT);
    assert_eq!(
        log.lock().unwrap().clone(),
        vec!["task1(1s) finished", "task2(3s) finished", "gap"]
    );
}

#[test]
fn select_any_on_two_sleeps_yields_the_shorter_first() {
    let (seen, elapsed) = block_on(move |h: Handle| async move {
        let (ha, hb) = (h.clone(), h.clone());
        let handles = vec![
            spawn(&h, async move {
                sleep_for(&ha, 2 * UNIT).await;
                "A".to_string()
            }),
            spawn(&h, async move {
                sleep_for(&hb, UNIT).await;
                "B".to_string()
            }),
        ];
        let (index, result, remaining) = Selecting { inner: select_any(handles) }.await;
        let first = (index, result, remaining.len());
        let (index, result, remaining) = Selecting { inner: select_any(remaining) }.await;
        vec![first, (index, result, remaining.len())]
    });
    assert_eq!(
        seen,
        vec![(1, Ok("B".to_string()), 1), (0, Ok("A".to_string()), 0)]
    );
    assert_eq!(elapsed, 2 * UNIT);
}

#[test]
fn join_all_preserves_order_whatever_finishes_first() {
    let (results, elapsed) = block_on(move |h: Handle| async move {
        let mut handles = Vec::new();
        for (name, delay) in [("1", 1u64), ("2", 2), ("3", 1)] {
            let hh = h.clone();
            handles.push(spawn(&h, async move {
                sleep_for(&hh, delay * UNIT).await;
                name.to_string()
            }));
        }
        JoiningAll { inner: join_all(handles) }.await
    });
    assert_eq!(
        results,
        vec![Ok("1".to_string()), Ok("2".to_string()), Ok("3".to_string())]
    );
    assert_eq!(elapsed, 2 * UNIT);
}

#[test]
fn abort_before_poll_yields_cancelled_and_exits_promptly() {
    let dropped = Arc::new(AtomicBool::new(false));
    struct Flag(Arc<AtomicBool>);
    impl Drop for Flag {
        fn drop(&mut self) {
            self.0.store(true, Ordering::SeqCst);
        }
    }
    let flag = Flag(dropped.clone());
    let (result, elapsed) = block_on(move |h: Handle| async move {
        let hh = h.clone();
        let sleeper = spawn(&h, async move {
            let _held = flag;
            sleep_for(&hh, 1 << 60).await;
            7u8
        });
        sleeper.abort();
        let handle = sleeper.handle.clone();
        let cell = sleeper.cell.clone();
        let result = sleeper.await;
        sleep_for(&handle, UNIT).await;
        let done = cell.task.lock().unwrap().is_done();
        (result, cell.polls.load(Ordering::SeqCst), done)
    });
    assert_eq!(result, (Err(JoinError::Cancelled), 0, true));
    assert_eq!(elapsed, UNIT);
    assert!(dropped.load(Ordering::SeqCst));
}

#[test]
fn dropping_the_handle_does_not_cancel_the_task() {
    let finished = Arc::new(AtomicBool::new(false));
    let finished2 = finished.clone();
    let ((), elapsed) = block_on(move |h: Handle| async move {
        let hh = h.clone();
        let detached = spawn(&h, async move {
            sleep_for(&hh, UNIT).await;
            finished2.store(true, Ordering::SeqCst);
        });
        drop(detached);
        sleep_for(&h, 2 * UNIT).await;
    });
    assert!(finished.load(Ordering::SeqCst));
    assert_eq!(elapsed, 2 * UNIT);
}

#[test]
fn many_wakes_of_a_scheduled_task_cause_one_poll() {
    let (polls, _) = block_on(move |h: Handle| async move {
        let hh = h.clone();
        let worker = spawn(&h, async move {
            sleep_for(&hh, UNIT).await;
        });
        let cell = worker.cell.clone();
        for _ in 0..10 {
            schedule(&cell);
        }
        let before = cell.polls.load(Ordering::SeqCst);
        worker.await.unwrap();
        (before, cell.polls.load(Ordering::SeqCst))
    });
    assert_eq!(polls, (0, 2));
}

#[test]
fn equal_deadline_sleeps_wake_in_spawn_order() {
    let log = Arc::new(Mutex::new(Vec::new()));
    let log2 = log.clone();
    let ((), _) = block_on(move |h: Handle| async move {
        let mut handles = Vec::new();
        for name in ["a", "b", "c"] {
            let hh = h.clone();
            let l = log2.clone();
            handles.push(spawn(&h, async move {
                sleep_for(&hh, UNIT).await;
                l.lock().unwrap().push(name);
            }));
        }
        for handle in handles {
            handle.await.unwrap();
        }
    });
    assert_eq!(log.lock().unwrap().clone(), vec!["a", "b", "c"]);
}
