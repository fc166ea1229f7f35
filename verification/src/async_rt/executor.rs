//! Tasks and their scheduling.
//!
//! A task is a stored future with three flags. The executor never polls a
//! future itself: `Task::poll` hands the future out when a poll is due and
//! `Task::settle` takes it back, so the driver polls it in between,
//! without holding the task.

use vstd::prelude::*;

verus! {

/// A task as a mathematical value.
pub struct TaskState<F> {
    /// The stored future; absent while it is out for a poll and after the
    /// task is done.
    pub fut: Option<F>,
    /// A poll has been posted to the loop and has not run yet.
    pub scheduled: bool,
    /// The future completed or was dropped.
    pub done: bool,
    /// The future is to be dropped at the next visit.
    pub cancelled: bool,
    /// The future is out for a poll.
    pub polling: bool,
}

impl<F> TaskState<F> {
    /// A task that is neither done nor out for a poll holds its future;
    /// one that is done or out for a poll does not.
    pub open spec fn inv(self) -> bool {
        self.fut is Some <==> !self.done && !self.polling
    }

    /// A new task around `fut`.
    pub open spec fn created(fut: F) -> Self {
        TaskState { fut: Some(fut), scheduled: false, done: false, cancelled: false, polling: false }
    }

    /// Whether a schedule request must post a poll: only for a task that
    /// is not done and has no poll posted.
    pub open spec fn must_post(self) -> bool {
        !self.done && !self.scheduled
    }

    /// After a schedule request.
    pub open spec fn requested(self) -> Self {
        if self.must_post() {
            TaskState { scheduled: true, ..self }
        } else {
            self
        }
    }

    /// After `n` schedule requests in a row.
    pub open spec fn requested_times(self, n: nat) -> Self
        decreases n,
    {
        if n == 0 {
            self
        } else {
            self.requested().requested_times((n - 1) as nat)
        }
    }

    /// How many of `n` schedule requests in a row post a poll.
    pub open spec fn posts(self, n: nat) -> nat
        decreases n,
    {
        if n == 0 {
            0
        } else {
            (if self.must_post() {
                1nat
            } else {
                0nat
            }) + self.requested().posts((n - 1) as nat)
        }
    }

    /// After a cancel request.
    pub open spec fn cancelling(self) -> Self {
        TaskState { cancelled: true, ..self }
    }

    /// Whether a visit by a posted poll hands the future out.
    pub open spec fn hands_out(self) -> bool {
        !self.polling && !self.done && !self.cancelled && self.fut is Some
    }

    /// After a visit by a posted poll.
    pub open spec fn visited(self) -> Self {
        let s = TaskState { scheduled: false, ..self };
        if s.polling || s.done {
            s
        } else if s.cancelled || s.fut is None {
            TaskState { done: true, fut: None, ..s }
        } else {
            TaskState { polling: true, fut: None, ..s }
        }
    }

    /// After the future came back from a poll that finished, or did not.
    pub open spec fn settled(self, fut: F, finished: bool) -> Self {
        if !self.polling {
            self
        } else if finished || self.done {
            TaskState { polling: false, done: true, fut: None, ..self }
        } else {
            TaskState { polling: false, fut: Some(fut), ..self }
        }
    }
}

/// An executor-owned computation. `F` is the type of the stored future;
/// the task stores and returns it without looking inside.
pub struct Task<F> {
    fut: Option<F>,
    scheduled: bool,
    done: bool,
    cancelled: bool,
    polling: bool,
}

impl<F> View for Task<F> {
    type V = TaskState<F>;

    closed spec fn view(&self) -> TaskState<F> {
        TaskState {
            fut: self.fut,
            scheduled: self.scheduled,
            done: self.done,
            cancelled: self.cancelled,
            polling: self.polling,
        }
    }
}

impl<F> Task<F> {
    /// The state satisfies `TaskState::inv`.
    pub closed spec fn wf(&self) -> bool {
        self@.inv()
    }

    /// A well-formed task satisfies the state invariant.
    pub proof fn lemma_wf_inv(&self)
        requires
            self.wf(),
        ensures
            self@.inv(),
    {
    }

    /// A task around `fut`: not scheduled, not done, not cancelled.
    pub fn new(fut: F) -> (t: Self)
        ensures
            t.wf(),
            t@ == TaskState::created(fut),
    {
        Task { fut: Some(fut), scheduled: false, done: false, cancelled: false, polling: false }
    }

    /// Asks for a poll. Returns whether the caller must post one to the
    /// loop: only the request that finds the task neither done nor
    /// scheduled does.
    pub fn schedule(&mut self) -> (post: bool)
        requires
            old(self).wf(),
        ensures
            final(self).wf(),
            post == old(self)@.must_post(),
            final(self)@ == old(self)@.requested(),
    {
        if self.done {
            return false;
        }
        if self.scheduled {
            return false;
        }
        self.scheduled = true;
        true
    }

    /// The visit of a posted poll. Clears the scheduled flag. A task that
    /// is done, or whose future is out for a poll, is left alone. A
    /// cancelled task is marked done and its future dropped. Otherwise
    /// the future is handed out: the caller polls it once and returns it
    /// with `settle`.
    pub fn poll(&mut self) -> (fut: Option<F>)
        requires
            old(self).wf(),
        ensures
            final(self).wf(),
            final(self)@ == old(self)@.visited(),
            old(self)@.hands_out() ==> fut == old(self)@.fut,
            !old(self)@.hands_out() ==> fut is None,
    {
        self.scheduled = false;
        if self.polling || self.done {
            return None;
        }
        if self.cancelled {
            self.done = true;
            self.fut = None;
            return None;
        }
        match self.fut.take() {
            Some(fut) => {
                self.polling = true;
                Some(fut)
            },
            None => {
                self.done = true;
                None
            },
        }
    }

    /// Takes the future back after its poll. If the poll finished the
    /// task is marked done and the future dropped; else the future is
    /// stored for the next poll. Without a poll under way nothing
    /// changes.
    pub fn settle(&mut self, fut: F, finished: bool)
        requires
            old(self).wf(),
        ensures
            final(self).wf(),
            final(self)@ == old(self)@.settled(fut, finished),
    {
        if !self.polling {
            return ;
        }
        self.polling = false;
        if finished || self.done {
            self.done = true;
            self.fut = None;
        } else {
            self.fut = Some(fut);
        }
    }

    /// Asks that the future be dropped at the next visit.
    pub fn cancel(&mut self)
        requires
            old(self).wf(),
        ensures
            final(self).wf(),
            final(self)@ == old(self)@.cancelling(),
    {
        self.cancelled = true;
    }

    /// Whether the future completed or was dropped.
    pub fn is_done(&self) -> (b: bool)
        ensures
            b == self@.done,
    {
        self.done
    }

    /// Whether a poll is posted and has not run.
    pub fn is_scheduled(&self) -> (b: bool)
        ensures
            b == self@.scheduled,
    {
        self.scheduled
    }

    /// Whether cancellation was requested.
    pub fn is_cancelled(&self) -> (b: bool)
        ensures
            b == self@.cancelled,
    {
        self.cancelled
    }

    /// Whether the task still holds its future.
    pub fn holds_future(&self) -> (b: bool)
        ensures
            b == self@.fut is Some,
    {
        self.fut.is_some()
    }
}

/// What spawns tasks and schedules their polls on one loop. `H` is the
/// handle through which polls are posted to that loop.
pub struct Executor<H> {
    handle: H,
}

impl<H> Executor<H> {
    /// The handle of the loop the executor posts to.
    pub closed spec fn loop_handle(&self) -> H {
        self.handle
    }

    /// An executor that posts through `handle`.
    pub fn new(handle: H) -> (e: Self)
        ensures
            e.loop_handle() == handle,
    {
        Executor { handle }
    }

    /// The handle to post polls through.
    pub fn handle(&self) -> (h: &H)
        ensures
            *h == self.loop_handle(),
    {
        &self.handle
    }

    /// Wraps `fut` into a task and schedules its first poll: the task
    /// comes back scheduled, and the caller posts that poll.
    pub fn spawn<F>(&self, fut: F) -> (t: Task<F>)
        ensures
            t.wf(),
            t@ == TaskState::created(fut).requested(),
            t@.scheduled,
    {
        let mut t = Task::new(fut);
        let _ = self.schedule(&mut t);
        t
    }

    /// Asks for a poll of `task`. Returns whether the caller must post
    /// one through `handle()`.
    pub fn schedule<F>(&self, task: &mut Task<F>) -> (post: bool)
        requires
            old(task).wf(),
        ensures
            final(task).wf(),
            post == old(task)@.must_post(),
            final(task)@ == old(task)@.requested(),
    {
        task.schedule()
    }
}

/// Wakes of a task that is scheduled and not yet visited change nothing
/// and post nothing, however many there are: the one poll already posted
/// serves them all.
pub proof fn lemma_wakes_coalesce<F>(s: TaskState<F>, n: nat)
    requires
        s.scheduled,
    ensures
        s.requested_times(n) == s,
        s.posts(n) == 0,
    decreases n,
{
    if n > 0 {
        lemma_wakes_coalesce(s, (n - 1) as nat);
    }
}

/// Of any number of wakes of a task that is not done, at most one posts a
/// poll, and exactly one does if no poll was posted before and there is at
/// least one wake. The task ends up scheduled in that case.
pub proof fn lemma_one_post_per_visit<F>(s: TaskState<F>, n: nat)
    requires
        !s.done,
    ensures
        s.posts(n) == (if n > 0 && !s.scheduled {
            1nat
        } else {
            0nat
        }),
        n > 0 ==> s.requested_times(n).scheduled,
    decreases n,
{
    if n > 0 {
        if s.scheduled {
            lemma_wakes_coalesce(s, n);
        } else {
            lemma_wakes_coalesce(s.requested(), (n - 1) as nat);
        }
    }
}

/// While the future is out for a poll, a second visit hands nothing out
/// and leaves the poll under way: two polls of one future never overlap.
pub proof fn lemma_single_flight<F>(s: TaskState<F>)
    requires
        s.inv(),
        s.hands_out(),
    ensures
        s.visited().polling,
        !s.visited().hands_out(),
        s.visited().visited().polling,
        !s.visited().visited().hands_out(),
        forall|fut: F, finished: bool| !(#[trigger] s.visited().settled(fut, finished)).polling,
{
}

/// After a cancel request the next visit that finds the future stored
/// drops it and marks the task done, and the task never holds a future
/// again.
pub proof fn lemma_cancel_drops_future<F>(s: TaskState<F>)
    requires
        s.inv(),
        !s.polling,
    ensures
        s.cancelling().visited().fut is None,
        s.cancelling().visited().done,
        !s.cancelling().visited().hands_out(),
        forall|fut: F, finished: bool|
            (#[trigger] s.cancelling().visited().settled(fut, finished)).fut is None,
{
}

/// A cancel request that arrives while the future is out for a poll takes
/// effect when the future comes back and the task is visited again.
pub proof fn lemma_cancel_during_poll<F>(s: TaskState<F>, fut: F, finished: bool)
    requires
        s.inv(),
        s.polling,
    ensures
        s.cancelling().settled(fut, finished).visited().fut is None,
        s.cancelling().settled(fut, finished).visited().done,
{
}

/// What can happen to a task.
pub enum TaskEvent<F> {
    /// A waker was invoked: a schedule request.
    Wake,
    /// The join handle was aborted: a cancel request, then a schedule
    /// request.
    Abort,
    /// A posted poll runs: it visits the task.
    Visit,
    /// The poll under way returns the future, finished or not.
    Settle { fut: F, finished: bool },
}

/// A task together with the count of its posted polls that have not run
/// yet and the count of polls of its future that are under way.
pub struct TaskHistory<F> {
    pub state: TaskState<F>,
    pub posted: int,
    pub in_flight: int,
}

impl<F> TaskHistory<F> {
    /// A task that was just created.
    pub open spec fn start(fut: F) -> Self {
        TaskHistory { state: TaskState::created(fut), posted: 0, in_flight: 0 }
    }

    /// Whether `event` can happen now: a visit needs a posted poll, and a
    /// poll can only return while one is under way.
    pub open spec fn allows(self, event: TaskEvent<F>) -> bool {
        match event {
            TaskEvent::Wake => true,
            TaskEvent::Abort => true,
            TaskEvent::Visit => self.posted > 0,
            TaskEvent::Settle { .. } => self.in_flight > 0,
        }
    }

    /// The history after `event`.
    pub open spec fn after(self, event: TaskEvent<F>) -> Self {
        match event {
            TaskEvent::Wake => TaskHistory {
                state: self.state.requested(),
                posted: self.posted + (if self.state.must_post() {
                    1int
                } else {
                    0int
                }),
                ..self
            },
            TaskEvent::Abort => TaskHistory {
                state: self.state.cancelling().requested(),
                posted: self.posted + (if self.state.must_post() {
                    1int
                } else {
                    0int
                }),
                ..self
            },
            TaskEvent::Visit => TaskHistory {
                state: self.state.visited(),
                posted: self.posted - 1,
                in_flight: self.in_flight + (if self.state.hands_out() {
                    1int
                } else {
                    0int
                }),
            },
            TaskEvent::Settle { fut, finished } => TaskHistory {
                state: self.state.settled(fut, finished),
                in_flight: self.in_flight - (if self.state.polling {
                    1int
                } else {
                    0int
                }),
                ..self
            },
        }
    }

    /// Whether the events can happen one after the other.
    pub open spec fn allows_all(self, events: Seq<TaskEvent<F>>) -> bool
        decreases events.len(),
    {
        events.len() == 0 || (self.allows(events[0]) && self.after(events[0]).allows_all(
            events.drop_first(),
        ))
    }

    /// The history after the events happened one after the other.
    pub open spec fn after_all(self, events: Seq<TaskEvent<F>>) -> Self
        decreases events.len(),
    {
        if events.len() == 0 {
            self
        } else {
            self.after(events[0]).after_all(events.drop_first())
        }
    }

    /// The counts agree with the flags: a poll is posted exactly while
    /// the task is scheduled, and one is under way exactly while the
    /// future is out.
    pub open spec fn consistent(self) -> bool {
        &&& self.state.inv()
        &&& self.posted == (if self.state.scheduled {
            1int
        } else {
            0int
        })
        &&& self.in_flight == (if self.state.polling {
            1int
        } else {
            0int
        })
    }
}

/// Whatever happens to a task, and in whatever order, at most one poll of
/// it is posted and not yet run, and at most one poll of its future is
/// under way: polls of one task never overlap, and wakes of a scheduled
/// task add no poll.
pub proof fn lemma_polls_never_overlap<F>(h: TaskHistory<F>, events: Seq<TaskEvent<F>>)
    requires
        h.consistent(),
        h.allows_all(events),
    ensures
        h.after_all(events).consistent(),
        0 <= h.after_all(events).posted <= 1,
        0 <= h.after_all(events).in_flight <= 1,
    decreases events.len(),
{
    if events.len() > 0 {
        lemma_polls_never_overlap(h.after(events[0]), events.drop_first());
    }
}

/// The property of `lemma_polls_never_overlap` holds along the whole
/// way, not only at the end: after every prefix of the events.
pub proof fn lemma_polls_never_overlap_on_the_way<F>(
    h: TaskHistory<F>,
    events: Seq<TaskEvent<F>>,
    n: int,
)
    requires
        h.consistent(),
        h.allows_all(events),
        0 <= n <= events.len(),
    ensures
        h.allows_all(events.take(n)),
        0 <= h.after_all(events.take(n)).posted <= 1,
        0 <= h.after_all(events.take(n)).in_flight <= 1,
    decreases n,
{
    if n > 0 {
        let first = events[0];
        let rest = events.drop_first();
        lemma_polls_never_overlap_on_the_way(h.after(first), rest, n - 1);
        assert(events.take(n)[0] == first);
        assert(events.take(n).drop_first() == rest.take(n - 1));
    } else {
        assert(events.take(0).len() == 0);
    }
}

/// A new task is consistent with no poll posted and none under way.
pub proof fn lemma_new_task_is_consistent<F>(fut: F)
    ensures
        TaskHistory::start(fut).consistent(),
{
}

} // verus!
