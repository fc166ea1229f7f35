//! The reactor's dispatch cycle as a state machine.
//!
//! The loop owns the source table, the timer queue and the local task
//! queue, and decides what happens next. It never runs a closure, reads a
//! clock or calls the backend itself: [`EventLoop::run`] hands the driver one
//! [`Action`] at a time, and the driver answers with the matching
//! [`Event`]. While a task or a callback runs, the driver may call the other
//! methods of the loop (`post`, `add_io`, `request_exit`, ...) as that
//! closure asks.

use super::io_watcher::IoWatcher;
use super::timer::after_expired;
use super::timer::enqueue;
use super::timer::in_firing_order;
use super::timer::lemma_enqueue_keeps_order;
use super::timer::lemma_insertion_order_kept;
use super::timer::slot;
use super::timer::next_expired;
use super::timer::Timer;
use super::timer::TimerQueue;
use super::types::Interest;
use super::types::Ready;
use std::collections::HashMap;
use std::collections::VecDeque;
use vstd::prelude::*;

verus! {

broadcast use vstd::std_specs::hash::group_hash_axioms;

/// One registration: what the descriptor was registered for, and the
/// callback to invoke when it is ready.
pub struct Source<C> {
    pub interest: Interest,
    pub callback: C,
}

/// Where the dispatch cycle stands, that is, which answer `run` waits for.
#[derive(Debug, Clone, Copy, PartialEq, Eq, Structural)]
pub enum Stage {
    /// Not running. `Event::Start` begins a run.
    Idle,
    /// The driver is emptying the shared mailbox.
    Draining,
    /// The driver is reading the clock for the timer pass.
    TimerClock,
    /// An expired timer's task is running.
    Timer,
    /// A local task is running.
    Task,
    /// The driver is reading the clock to bound the wait.
    TimeoutClock,
    /// The driver is blocked in the backend.
    Waiting,
    /// The callback of `fd` is running; its source is detached.
    Callback { fd: i32, interest: Interest },
    /// The driver is deregistering `fd`, a deferred removal.
    Deregistering { fd: i32 },
    /// The driver is registering `fd`, a deferred addition.
    Registering { fd: i32 },
}

/// What the driver reports to `run`.
pub enum Event<T, C> {
    /// Begin a run of the loop.
    Start,
    /// The tasks taken from the shared mailbox, oldest first.
    Drained(VecDeque<T>),
    /// The monotonic clock, in nanoseconds.
    Clock(u64),
    /// The task handed out by the last action has returned.
    TaskDone,
    /// The backend returned these readiness reports.
    Woken(Vec<(i32, Ready)>),
    /// The backend failed while waiting.
    WaitFailed,
    /// The callback handed out by the last action has returned; here it is.
    Dispatched(C),
    /// Whether the backend accepted the registration.
    Registered(bool),
    /// Whether the backend accepted the deregistration.
    Deregistered(bool),
}

/// What `run` asks the driver to do next.
pub enum Action<T, C> {
    /// Take everything out of the shared mailbox; answer `Drained`.
    Drain,
    /// Read the monotonic clock; answer `Clock`.
    ReadClock,
    /// Run the given closure on the loop; answer `TaskDone`.
    RunTask(T),
    /// Block in the backend for at most this many nanoseconds, or
    /// indefinitely; answer `Woken` or `WaitFailed`.
    Wait(Option<u64>),
    /// Invoke this callback with `ready`; answer `Dispatched` with the
    /// callback.
    Dispatch { fd: i32, ready: Ready, callback: C },
    /// Register `fd` with the backend; answer `Registered`.
    Register { fd: i32, interest: Interest },
    /// Deregister `fd` from the backend; answer `Deregistered`.
    Deregister { fd: i32 },
    /// The run is over.
    Exit,
}

/// What `add_io` asks of its caller.
pub enum AddIo<C> {
    /// A callback is being dispatched: the registration was queued and is
    /// applied at the end of the pass.
    Deferred,
    /// Register the descriptor with the backend now and, if that succeeds,
    /// hand the source to `registered`.
    Register(Source<C>),
}

/// What `remove_io` asks of its caller.
#[derive(Debug, Clone, Copy, PartialEq, Eq, Structural)]
pub enum RemoveIo {
    /// A callback is being dispatched: the removal was queued and is applied
    /// at the end of the pass.
    Deferred,
    /// Deregister the descriptor from the backend now and, if that
    /// succeeds, call `deregistered`.
    Deregister,
}

/// Whether a registration for `fd` is among the queued ones.
pub open spec fn addition_queued<C>(adds: Seq<(i32, Source<C>)>, fd: i32) -> bool {
    exists|i: int| 0 <= i < adds.len() && (#[trigger] adds[i]).0 == fd
}

/// The loop as a mathematical value.
pub struct LoopState<T, C> {
    pub stage: Stage,
    pub exit_requested: bool,
    pub in_dispatch: bool,
    /// At most one source per descriptor.
    pub sources: Map<i32, Source<C>>,
    /// Registrations queued during dispatch, oldest first.
    pub pending_add: Seq<(i32, Source<C>)>,
    /// Removals queued during dispatch, oldest first.
    pub pending_remove: Seq<i32>,
    /// Tasks waiting to run, oldest first.
    pub local_tasks: Seq<T>,
    /// Pending timers in firing order.
    pub timers: Seq<Timer<T>>,
    /// Sequence number of the next timer.
    pub timer_seq: u64,
    /// The clock as read for the current timer pass.
    pub pass_now: u64,
    /// Readiness reports of the current pass not yet dispatched.
    pub batch: Seq<(i32, Ready)>,
    /// The source whose deferred registration is under way.
    pub staged: Option<Source<C>>,
    /// Whether the driver prints each wakeup batch.
    pub trace: bool,
}

impl<T, C> LoopState<T, C> {
    /// What holds of every loop between two calls.
    pub open spec fn inv(self) -> bool {
        &&& in_firing_order(self.timers)
        &&& (self.stage is Registering <==> self.staged is Some)
        &&& (self.stage is Callback ==> self.in_dispatch)
        &&& (self.stage matches Stage::Callback { fd, .. } ==> !self.sources.contains_key(fd))
    }

    /// A fresh loop: nothing registered, nothing queued.
    pub open spec fn initial(trace: bool) -> Self {
        LoopState {
            stage: Stage::Idle,
            exit_requested: false,
            in_dispatch: false,
            sources: Map::empty(),
            pending_add: Seq::empty(),
            pending_remove: Seq::empty(),
            local_tasks: Seq::empty(),
            timers: Seq::empty(),
            timer_seq: 0,
            pass_now: 0,
            batch: Seq::empty(),
            staged: None,
            trace,
        }
    }

    /// After `post(task)`.
    pub open spec fn posted(self, task: T) -> Self {
        LoopState { local_tasks: self.local_tasks.push(task), ..self }
    }

    /// After `request_exit()`.
    pub open spec fn exiting(self) -> Self {
        LoopState { exit_requested: true, ..self }
    }

    /// After `post_delayed(now, delay, task)`.
    pub open spec fn delayed(self, now: u64, delay: u64, task: T) -> Self {
        LoopState {
            timers: enqueue(
                self.timers,
                Timer { when: (now + delay) as u64, seq: self.timer_seq, task },
            ),
            timer_seq: if self.timer_seq == u64::MAX {
                0
            } else {
                (self.timer_seq + 1) as u64
            },
            ..self
        }
    }

    /// After a registration was queued during dispatch.
    pub open spec fn add_deferred(self, fd: i32, source: Source<C>) -> Self {
        LoopState { pending_add: self.pending_add.push((fd, source)), ..self }
    }

    /// After a removal was queued during dispatch.
    pub open spec fn remove_deferred(self, fd: i32) -> Self {
        LoopState { pending_remove: self.pending_remove.push(fd), ..self }
    }

    /// After `source` was installed for `fd`.
    pub open spec fn with_source(self, fd: i32, source: Source<C>) -> Self {
        LoopState { sources: self.sources.insert(fd, source), ..self }
    }

    /// After the source of `fd`, if any, was dropped.
    pub open spec fn without_source(self, fd: i32) -> Self {
        LoopState { sources: self.sources.remove(fd), ..self }
    }

    /// How long the backend may block at time `now`: not at all while a
    /// local task waits, else until the next deadline, else indefinitely.
    pub open spec fn timeout(self, now: u64) -> Option<u64> {
        if self.local_tasks.len() > 0 {
            Some(0u64)
        } else if self.timers.len() == 0 {
            None
        } else if self.timers[0].when <= now {
            Some(0u64)
        } else {
            Some((self.timers[0].when - now) as u64)
        }
    }

    /// Whether `event` answers the action that is outstanding.
    pub open spec fn accepts(self, event: Event<T, C>) -> bool {
        match event {
            Event::Start => self.stage is Idle,
            Event::Drained(_) => self.stage is Draining,
            Event::Clock(_) => self.stage is TimerClock || self.stage is TimeoutClock,
            Event::TaskDone => self.stage is Timer || self.stage is Task,
            Event::Woken(_) => self.stage is Waiting,
            Event::WaitFailed => self.stage is Waiting,
            Event::Dispatched(_) => self.stage is Callback,
            Event::Registered(_) => self.stage is Registering,
            Event::Deregistered(_) => self.stage is Deregistering,
        }
    }

    /// Top of the cycle: stop if exit was requested, else drain the shared
    /// mailbox.
    pub open spec fn begin_cycle(self) -> (Self, Action<T, C>) {
        if self.exit_requested {
            (LoopState { stage: Stage::Idle, ..self }, Action::Exit)
        } else {
            (LoopState { stage: Stage::Draining, ..self }, Action::Drain)
        }
    }

    /// Decides how to wait once the task pass is over: leave if exit was
    /// requested; do not block while a local task waits; block
    /// indefinitely without timers; else read the clock first.
    pub open spec fn after_tasks(self) -> (Self, Action<T, C>) {
        if self.exit_requested {
            (LoopState { stage: Stage::Idle, ..self }, Action::Exit)
        } else if self.local_tasks.len() > 0 {
            (LoopState { stage: Stage::Waiting, ..self }, Action::Wait(Some(0u64)))
        } else if self.timers.len() == 0 {
            (LoopState { stage: Stage::Waiting, ..self }, Action::Wait(None))
        } else {
            (LoopState { stage: Stage::TimeoutClock, ..self }, Action::ReadClock)
        }
    }

    /// The task pass: hand out the oldest local task, or move on when the
    /// queue is empty.
    pub open spec fn run_local(self) -> (Self, Action<T, C>) {
        if self.local_tasks.len() > 0 {
            (
                LoopState {
                    local_tasks: self.local_tasks.drop_first(),
                    stage: Stage::Task,
                    ..self
                },
                Action::RunTask(self.local_tasks[0]),
            )
        } else {
            self.after_tasks()
        }
    }

    /// The timer pass: hand out the next timer whose deadline is not after
    /// `pass_now`, or move on to the task pass.
    pub open spec fn fire_timers(self) -> (Self, Action<T, C>) {
        match next_expired(self.timers, self.pass_now) {
            Some(t) => (
                LoopState {
                    timers: after_expired(self.timers, self.pass_now),
                    stage: Stage::Timer,
                    ..self
                },
                Action::RunTask(t.task),
            ),
            None => self.run_local(),
        }
    }

    /// Applies the queued registrations, oldest first. One whose
    /// descriptor already has a source is dropped. When none is left the
    /// next cycle begins.
    pub open spec fn apply_additions(self) -> (Self, Action<T, C>)
        decreases self.pending_add.len(),
    {
        if self.pending_add.len() == 0 {
            self.begin_cycle()
        } else {
            let (fd, source) = self.pending_add[0];
            let rest = LoopState { pending_add: self.pending_add.drop_first(), ..self };
            if self.sources.contains_key(fd) {
                rest.apply_additions()
            } else {
                (
                    LoopState { stage: Stage::Registering { fd }, staged: Some(source), ..rest },
                    Action::Register { fd, interest: source.interest },
                )
            }
        }
    }

    /// Applies the queued removals, oldest first, then the queued
    /// registrations.
    pub open spec fn apply_removals(self) -> (Self, Action<T, C>) {
        if self.pending_remove.len() > 0 {
            let fd = self.pending_remove[0];
            (
                LoopState {
                    pending_remove: self.pending_remove.drop_first(),
                    stage: Stage::Deregistering { fd },
                    ..self
                },
                Action::Deregister { fd },
            )
        } else {
            self.apply_additions()
        }
    }

    /// Dispatches the next report of the batch whose descriptor has a
    /// source: the source is detached and its callback handed out. Reports
    /// for unknown descriptors are skipped. When the batch is exhausted
    /// dispatch mode ends and the deferred changes are applied.
    pub open spec fn dispatch_next(self) -> (Self, Action<T, C>)
        decreases self.batch.len(),
    {
        if self.batch.len() == 0 {
            LoopState { in_dispatch: false, ..self }.apply_removals()
        } else {
            let (fd, ready) = self.batch[0];
            let rest = LoopState { batch: self.batch.drop_first(), ..self };
            if self.sources.contains_key(fd) {
                let source = self.sources[fd];
                (
                    LoopState {
                        sources: self.sources.remove(fd),
                        stage: Stage::Callback { fd, interest: source.interest },
                        ..rest
                    },
                    Action::Dispatch { fd, ready, callback: source.callback },
                )
            } else {
                rest.dispatch_next()
            }
        }
    }

    /// After the callback of the detached source returned. If the removal
    /// of the descriptor is queued, the source is dropped. If a
    /// registration for the descriptor is queued, that one is to replace
    /// it: the source is dropped, and the removal of the descriptor is
    /// queued so that the backend forgets the old registration before it
    /// is asked for the new one. Otherwise the source goes back into the
    /// table.
    pub open spec fn reattached(self, callback: C) -> Self {
        match self.stage {
            Stage::Callback { fd, interest } => if self.pending_remove.contains(fd) {
                self
            } else if addition_queued(self.pending_add, fd) {
                self.remove_deferred(fd)
            } else {
                self.with_source(fd, Source { interest, callback })
            },
            _ => self,
        }
    }

    /// After the backend answered a deferred removal: on success the
    /// source is dropped, on failure it stays.
    pub open spec fn removal_settled(self, ok: bool) -> Self {
        match self.stage {
            Stage::Deregistering { fd } => if ok {
                self.without_source(fd)
            } else {
                self
            },
            _ => self,
        }
    }

    /// After the backend answered a deferred registration: on success the
    /// staged source is installed, on failure it is dropped.
    pub open spec fn addition_settled(self, ok: bool) -> Self {
        match (self.stage, self.staged) {
            (Stage::Registering { fd }, Some(source)) => if ok {
                LoopState { staged: None, ..self.with_source(fd, source) }
            } else {
                LoopState { staged: None, ..self }
            },
            _ => LoopState { staged: None, ..self },
        }
    }

    /// One step of the dispatch cycle: the state and the action that
    /// follow from `event`.
    pub open spec fn step(self, event: Event<T, C>) -> (Self, Action<T, C>) {
        match event {
            Event::Start => self.begin_cycle(),
            Event::Drained(tasks) => (
                LoopState {
                    local_tasks: self.local_tasks + tasks@,
                    stage: Stage::TimerClock,
                    ..self
                },
                Action::ReadClock,
            ),
            Event::Clock(now) => if self.stage is TimerClock {
                LoopState { pass_now: now, ..self }.fire_timers()
            } else {
                (LoopState { stage: Stage::Waiting, ..self }, Action::Wait(self.timeout(now)))
            },
            Event::TaskDone => if self.stage is Timer {
                if self.exit_requested {
                    self.run_local()
                } else {
                    self.fire_timers()
                }
            } else {
                if self.exit_requested {
                    self.after_tasks()
                } else {
                    self.run_local()
                }
            },
            Event::Woken(events) => LoopState {
                in_dispatch: true,
                batch: events@,
                ..self
            }.dispatch_next(),
            Event::WaitFailed => (LoopState { stage: Stage::Idle, ..self }, Action::Exit),
            Event::Dispatched(callback) => self.reattached(callback).dispatch_next(),
            Event::Deregistered(ok) => self.removal_settled(ok).apply_removals(),
            Event::Registered(ok) => self.addition_settled(ok).apply_additions(),
        }
    }
}

/// The reactor state: source table, timers, local tasks and the position
/// in the dispatch cycle. `T` is the type of a task, `C` of a readiness
/// callback; the loop stores and returns them without looking inside.
pub struct EventLoop<T, C> {
    stage: Stage,
    exit_requested: bool,
    in_dispatch: bool,
    trace: bool,
    sources: HashMap<i32, Source<C>>,
    pending_add: VecDeque<(i32, Source<C>)>,
    pending_remove: VecDeque<i32>,
    local_tasks: VecDeque<T>,
    timers: TimerQueue<T>,
    timer_seq: u64,
    pass_now: u64,
    batch: Vec<(i32, Ready)>,
    cursor: usize,
    staged: Option<Source<C>>,
}

impl<T, C> View for EventLoop<T, C> {
    type V = LoopState<T, C>;

    closed spec fn view(&self) -> LoopState<T, C> {
        LoopState {
            stage: self.stage,
            exit_requested: self.exit_requested,
            in_dispatch: self.in_dispatch,
            sources: self.sources@,
            pending_add: self.pending_add@,
            pending_remove: self.pending_remove@,
            local_tasks: self.local_tasks@,
            timers: self.timers@,
            timer_seq: self.timer_seq,
            pass_now: self.pass_now,
            batch: self.batch@.skip(self.cursor as int),
            staged: self.staged,
            trace: self.trace,
        }
    }
}

impl<T, C> EventLoop<T, C> {
    /// The representation is sound and the state satisfies `inv`.
    pub closed spec fn wf(&self) -> bool {
        &&& self.timers.wf()
        &&& self.cursor <= self.batch.len()
        &&& self@.inv()
    }

    /// A well-formed loop satisfies the state invariant.
    pub proof fn lemma_wf_inv(&self)
        requires
            self.wf(),
        ensures
            self@.inv(),
    {
    }

    /// A loop with nothing registered and nothing queued. `trace` records
    /// whether the driver should print each wakeup batch.
    pub fn new(trace: bool) -> (lp: Self)
        ensures
            lp.wf(),
            lp@ == LoopState::<T, C>::initial(trace),
    {
        let lp = EventLoop {
            stage: Stage::Idle,
            exit_requested: false,
            in_dispatch: false,
            trace,
            sources: HashMap::new(),
            pending_add: VecDeque::new(),
            pending_remove: VecDeque::new(),
            local_tasks: VecDeque::new(),
            timers: TimerQueue::new(),
            timer_seq: 0,
            pass_now: 0,
            batch: Vec::new(),
            cursor: 0,
            staged: None,
        };
        proof {
            lp.timers.lemma_wf();
            assert(lp@.batch == Seq::<(i32, Ready)>::empty());
            assert(lp@.sources == Map::<i32, Source<C>>::empty());
        }
        lp
    }

    /// Whether the driver should print each wakeup batch.
    pub fn trace(&self) -> (b: bool)
        ensures
            b == self@.trace,
    {
        self.trace
    }

    /// Where the dispatch cycle stands.
    pub fn stage(&self) -> (s: Stage)
        ensures
            s == self@.stage,
    {
        self.stage
    }

    /// Whether exit was requested.
    pub fn exit_requested(&self) -> (b: bool)
        ensures
            b == self@.exit_requested,
    {
        self.exit_requested
    }

    /// Whether a readiness batch is being dispatched.
    pub fn in_dispatch(&self) -> (b: bool)
        ensures
            b == self@.in_dispatch,
    {
        self.in_dispatch
    }

    /// Whether `fd` has a source in the table.
    pub fn has_source(&self, fd: i32) -> (b: bool)
        ensures
            b == self@.sources.contains_key(fd),
    {
        self.sources.contains_key(&fd)
    }

    /// Number of sources in the table.
    pub fn source_count(&self) -> (n: usize)
        ensures
            n == self@.sources.len(),
    {
        self.sources.len()
    }

    /// Number of local tasks waiting to run.
    pub fn pending_tasks(&self) -> (n: usize)
        ensures
            n == self@.local_tasks.len(),
    {
        self.local_tasks.len()
    }

    /// Number of pending timers.
    pub fn pending_timers(&self) -> (n: usize)
        ensures
            n == self@.timers.len(),
    {
        self.timers.len()
    }

    /// Asks the loop to stop: the run ends once the task or timer pass that
    /// is under way notices.
    pub fn request_exit(&mut self)
        requires
            old(self).wf(),
        ensures
            final(self).wf(),
            final(self)@ == old(self)@.exiting(),
    {
        self.exit_requested = true;
    }

    /// Appends a task to the local queue.
    pub fn post(&mut self, task: T)
        requires
            old(self).wf(),
        ensures
            final(self).wf(),
            final(self)@ == old(self)@.posted(task),
    {
        self.local_tasks.push_back(task);
    }

    /// Schedules `task` to run once the clock reaches `now + delay`. The
    /// timer takes the loop's next sequence number; the counter wraps.
    pub fn post_delayed(&mut self, now: u64, delay: u64, task: T)
        requires
            old(self).wf(),
            now + delay <= u64::MAX,
        ensures
            final(self).wf(),
            final(self)@ == old(self)@.delayed(now, delay, task),
    {
        let when = now + delay;
        let seq = self.timer_seq;
        self.timer_seq = if self.timer_seq == u64::MAX {
            0
        } else {
            self.timer_seq + 1
        };
        proof {
            self.timers.lemma_wf();
            lemma_enqueue_keeps_order(self.timers@, Timer { when, seq, task });
        }
        self.timers.push(Timer { when, seq, task });
    }

    /// Registers interest in `fd`. While a callback is being dispatched the
    /// registration is queued; otherwise the caller registers the
    /// descriptor with the backend and then calls `registered`.
    pub fn add_io(&mut self, fd: i32, interest: Interest, callback: C) -> (r: AddIo<C>)
        requires
            old(self).wf(),
        ensures
            final(self).wf(),
            old(self)@.in_dispatch ==> r is Deferred && final(self)@ == old(self)@.add_deferred(
                fd,
                Source { interest, callback },
            ),
            !old(self)@.in_dispatch ==> r == AddIo::Register(Source { interest, callback })
                && final(self)@ == old(self)@,
    {
        let source = Source { interest, callback };
        if self.in_dispatch {
            self.pending_add.push_back((fd, source));
            AddIo::Deferred
        } else {
            AddIo::Register(source)
        }
    }

    /// Like `add_io`, and returns with its answer the watcher to hand out
    /// once the registration stands or is queued. If the backend refuses
    /// the registration the watcher is to be stopped and discarded.
    pub fn watch_io(&mut self, fd: i32, interest: Interest, callback: C) -> (r: (
        AddIo<C>,
        IoWatcher,
    ))
        requires
            old(self).wf(),
        ensures
            final(self).wf(),
            old(self)@.in_dispatch ==> r.0 is Deferred && final(self)@ == old(self)@.add_deferred(
                fd,
                Source { interest, callback },
            ),
            !old(self)@.in_dispatch ==> r.0 == AddIo::Register(Source { interest, callback })
                && final(self)@ == old(self)@,
            r.1.watched() == fd,
            r.1.is_active(),
    {
        let step = self.add_io(fd, interest, callback);
        (step, IoWatcher::new(fd))
    }

    /// Installs `source` for `fd` after the backend accepted the
    /// registration. A source already present for `fd` is replaced. Not
    /// to be called while a callback is being dispatched: changes to the
    /// table are deferred then, and `add_io` never asks for this call.
    pub fn registered(&mut self, fd: i32, source: Source<C>)
        requires
            old(self).wf(),
            !old(self)@.in_dispatch,
        ensures
            final(self).wf(),
            final(self)@ == old(self)@.with_source(fd, source),
    {
        self.sources.insert(fd, source);
    }

    /// Stops watching `fd`. While a callback is being dispatched the
    /// removal is queued; otherwise the caller deregisters the descriptor
    /// from the backend and then calls `deregistered`.
    pub fn remove_io(&mut self, fd: i32) -> (r: RemoveIo)
        requires
            old(self).wf(),
        ensures
            final(self).wf(),
            old(self)@.in_dispatch ==> r == RemoveIo::Deferred && final(self)@ == old(self)@.remove_deferred(fd),
            !old(self)@.in_dispatch ==> r == RemoveIo::Deregister && final(self)@ == old(self)@,
    {
        if self.in_dispatch {
            self.pending_remove.push_back(fd);
            RemoveIo::Deferred
        } else {
            RemoveIo::Deregister
        }
    }

    /// Drops the source of `fd` after the backend accepted the
    /// deregistration. An unknown `fd` changes nothing. Not to be called
    /// while a callback is being dispatched: changes to the table are
    /// deferred then, and `remove_io` never asks for this call.
    pub fn deregistered(&mut self, fd: i32)
        requires
            old(self).wf(),
            !old(self)@.in_dispatch,
        ensures
            final(self).wf(),
            final(self)@ == old(self)@.without_source(fd),
    {
        let _ = self.sources.remove(&fd);
    }

    /// How long the backend may block at time `now`.
    pub fn compute_timeout(&self, now: u64) -> (t: Option<u64>)
        requires
            self.wf(),
        ensures
            t == self@.timeout(now),
    {
        if self.local_tasks.len() > 0 {
            return Some(0);
        }
        match self.timers.peek() {
            None => None,
            Some(next) => Some(next.when.saturating_sub(now)),
        }
    }

    /// Whether `event` answers the action that is outstanding. `run` must
    /// only be given such an event.
    pub fn accepts(&self, event: &Event<T, C>) -> (b: bool)
        ensures
            b == self@.accepts(*event),
    {
        match event {
            Event::Start => matches!(self.stage, Stage::Idle),
            Event::Drained(_) => matches!(self.stage, Stage::Draining),
            Event::Clock(_) => matches!(self.stage, Stage::TimerClock) || matches!(
                self.stage,
                Stage::TimeoutClock
            ),
            Event::TaskDone => matches!(self.stage, Stage::Timer) || matches!(
                self.stage,
                Stage::Task
            ),
            Event::Woken(_) => matches!(self.stage, Stage::Waiting),
            Event::WaitFailed => matches!(self.stage, Stage::Waiting),
            Event::Dispatched(_) => matches!(self.stage, Stage::Callback { .. }),
            Event::Registered(_) => matches!(self.stage, Stage::Registering { .. }),
            Event::Deregistered(_) => matches!(self.stage, Stage::Deregistering { .. }),
        }
    }

    /// Advances the dispatch cycle by one step: takes the driver's answer
    /// to the outstanding action and returns the next action.
    ///
    /// One cycle drains the shared mailbox, fires the expired timers, runs
    /// the local tasks, blocks in the backend, dispatches the readiness
    /// reports and applies the deferred removals and registrations, in
    /// that order. The run ends when exit was requested by the end of the
    /// task pass, or when the backend fails.
    pub fn run(&mut self, event: Event<T, C>) -> (action: Action<T, C>)
        requires
            old(self).wf(),
            old(self)@.accepts(event),
        ensures
            final(self).wf(),
            final(self)@ == old(self)@.step(event).0,
            action == old(self)@.step(event).1,
    {
        match event {
            Event::Start => self.begin_cycle(),
            Event::Drained(tasks) => {
                self.drain_shared_tasks(tasks);
                self.stage = Stage::TimerClock;
                Action::ReadClock
            },
            Event::Clock(now) => {
                if matches!(self.stage, Stage::TimerClock) {
                    self.pass_now = now;
                    self.run_expired_timers()
                } else {
                    let timeout = self.compute_timeout(now);
                    self.stage = Stage::Waiting;
                    Action::Wait(timeout)
                }
            },
            Event::TaskDone => {
                if matches!(self.stage, Stage::Timer) {
                    if self.exit_requested {
                        self.run_local_tasks()
                    } else {
                        self.run_expired_timers()
                    }
                } else {
                    if self.exit_requested {
                        self.after_tasks()
                    } else {
                        self.run_local_tasks()
                    }
                }
            },
            Event::Woken(events) => {
                self.in_dispatch = true;
                self.batch = events;
                self.cursor = 0;
                assert(self.batch@.skip(0) == events@);
                self.dispatch_next()
            },
            Event::WaitFailed => {
                self.stage = Stage::Idle;
                Action::Exit
            },
            Event::Dispatched(callback) => {
                match self.stage {
                    Stage::Callback { fd, interest } => {
                        if self.removal_requested(fd) {
                        } else if self.addition_requested(fd) {
                            self.pending_remove.push_back(fd);
                        } else {
                            self.sources.insert(fd, Source { interest, callback });
                        }
                    },
                    _ => {},
                }
                self.dispatch_next()
            },
            Event::Deregistered(ok) => {
                match self.stage {
                    Stage::Deregistering { fd } => {
                        if ok {
                            let _ = self.sources.remove(&fd);
                        }
                    },
                    _ => {},
                }
                self.apply_removals()
            },
            Event::Registered(ok) => {
                let staged = self.staged.take();
                match (self.stage, staged) {
                    (Stage::Registering { fd }, Some(source)) => {
                        if ok {
                            self.sources.insert(fd, source);
                        }
                    },
                    _ => {},
                }
                self.apply_additions()
            },
        }
    }

    /// The representation is sound and no registration is staged.
    closed spec fn quiet(&self) -> bool {
        &&& self.timers.wf()
        &&& self.cursor <= self.batch.len()
        &&& self.staged is None
    }

    fn begin_cycle(&mut self) -> (a: Action<T, C>)
        requires
            old(self).quiet(),
        ensures
            final(self).wf(),
            final(self)@ == old(self)@.begin_cycle().0,
            a == old(self)@.begin_cycle().1,
    {
        proof {
            self.timers.lemma_wf();
        }
        if self.exit_requested {
            self.stage = Stage::Idle;
            Action::Exit
        } else {
            self.stage = Stage::Draining;
            Action::Drain
        }
    }

    /// Moves what the shared mailbox held to the back of the local queue.
    fn drain_shared_tasks(&mut self, tasks: VecDeque<T>)
        requires
            old(self).wf(),
        ensures
            final(self).wf(),
            final(self)@ == (LoopState {
                local_tasks: old(self)@.local_tasks + tasks@,
                ..old(self)@
            }),
    {
        let mut tasks = tasks;
        self.local_tasks.append(&mut tasks);
    }

    fn after_tasks(&mut self) -> (a: Action<T, C>)
        requires
            old(self).quiet(),
        ensures
            final(self).wf(),
            final(self)@ == old(self)@.after_tasks().0,
            a == old(self)@.after_tasks().1,
    {
        proof {
            self.timers.lemma_wf();
        }
        if self.exit_requested {
            self.stage = Stage::Idle;
            Action::Exit
        } else if self.local_tasks.len() > 0 {
            self.stage = Stage::Waiting;
            Action::Wait(Some(0))
        } else if self.timers.is_empty() {
            self.stage = Stage::Waiting;
            Action::Wait(None)
        } else {
            self.stage = Stage::TimeoutClock;
            Action::ReadClock
        }
    }

    /// Hands out the oldest local task, or decides how to wait.
    fn run_local_tasks(&mut self) -> (a: Action<T, C>)
        requires
            old(self).quiet(),
        ensures
            final(self).wf(),
            final(self)@ == old(self)@.run_local().0,
            a == old(self)@.run_local().1,
    {
        proof {
            self.timers.lemma_wf();
        }
        match self.local_tasks.pop_front() {
            Some(task) => {
                self.stage = Stage::Task;
                assert(self.local_tasks@ == old(self)@.local_tasks.drop_first());
                Action::RunTask(task)
            },
            None => self.after_tasks(),
        }
    }

    /// Hands out the next expired timer, or starts the task pass.
    fn run_expired_timers(&mut self) -> (a: Action<T, C>)
        requires
            old(self).quiet(),
        ensures
            final(self).wf(),
            final(self)@ == old(self)@.fire_timers().0,
            a == old(self)@.fire_timers().1,
    {
        match self.timers.pop_expired(self.pass_now) {
            Some(timer) => {
                proof {
                    self.timers.lemma_wf();
                }
                self.stage = Stage::Timer;
                Action::RunTask(timer.task)
            },
            None => self.run_local_tasks(),
        }
    }

    /// Whether a registration for `fd` is queued.
    fn addition_requested(&self, fd: i32) -> (b: bool)
        ensures
            b == addition_queued(self@.pending_add, fd),
    {
        let mut i: usize = 0;
        while i < self.pending_add.len()
            invariant
                i <= self.pending_add@.len(),
                forall|k: int| 0 <= k < i ==> (#[trigger] self.pending_add@[k]).0 != fd,
            decreases self.pending_add@.len() - i,
        {
            if self.pending_add[i].0 == fd {
                return true;
            }
            i += 1;
        }
        false
    }

    /// Whether the removal of `fd` is queued.
    fn removal_requested(&self, fd: i32) -> (b: bool)
        ensures
            b == self@.pending_remove.contains(fd),
    {
        let mut i: usize = 0;
        while i < self.pending_remove.len()
            invariant
                i <= self.pending_remove@.len(),
                forall|k: int| 0 <= k < i ==> self.pending_remove@[k] != fd,
            decreases self.pending_remove@.len() - i,
        {
            if self.pending_remove[i] == fd {
                return true;
            }
            i += 1;
        }
        false
    }

    fn dispatch_next(&mut self) -> (a: Action<T, C>)
        requires
            old(self).quiet(),
            old(self)@.in_dispatch,
        ensures
            final(self).wf(),
            final(self)@ == old(self)@.dispatch_next().0,
            a == old(self)@.dispatch_next().1,
    {
        let ghost start = self@;
        while self.cursor < self.batch.len()
            invariant
                self.quiet(),
                self@.in_dispatch,
                start == old(self)@,
                self@.dispatch_next() == start.dispatch_next(),
            decreases self.batch.len() - self.cursor,
        {
            let ghost before = self@;
            let (fd, ready) = self.batch[self.cursor];
            self.cursor += 1;
            proof {
                assert(before.batch[0] == (fd, ready));
                assert(self.batch@.skip(self.cursor as int) == before.batch.drop_first());
            }
            match self.sources.remove(&fd) {
                Some(source) => {
                    proof {
                        self.timers.lemma_wf();
                    }
                    self.stage = Stage::Callback { fd, interest: source.interest };
                    return Action::Dispatch { fd, ready, callback: source.callback };
                },
                None => {
                    assert(self.sources@ == before.sources);
                },
            }
        }
        self.in_dispatch = false;
        self.apply_removals()
    }

    fn apply_removals(&mut self) -> (a: Action<T, C>)
        requires
            old(self).quiet(),
        ensures
            final(self).wf(),
            final(self)@ == old(self)@.apply_removals().0,
            a == old(self)@.apply_removals().1,
    {
        match self.pending_remove.pop_front() {
            Some(fd) => {
                proof {
                    self.timers.lemma_wf();
                }
                self.stage = Stage::Deregistering { fd };
                assert(self.pending_remove@ == old(self)@.pending_remove.drop_first());
                Action::Deregister { fd }
            },
            None => self.apply_additions(),
        }
    }

    fn apply_additions(&mut self) -> (a: Action<T, C>)
        requires
            old(self).quiet(),
        ensures
            final(self).wf(),
            final(self)@ == old(self)@.apply_additions().0,
            a == old(self)@.apply_additions().1,
    {
        let ghost start = self@;
        while self.pending_add.len() > 0
            invariant
                self.quiet(),
                start == old(self)@,
                self@.apply_additions() == start.apply_additions(),
            decreases self.pending_add@.len(),
        {
            let ghost before = self@;
            match self.pending_add.pop_front() {
                Some((fd, source)) => {
                    assert(self.pending_add@ == before.pending_add.drop_first());
                    if !self.sources.contains_key(&fd) {
                        proof {
                            self.timers.lemma_wf();
                        }
                        self.stage = Stage::Registering { fd };
                        let interest = source.interest;
                        self.staged = Some(source);
                        return Action::Register { fd, interest };
                    }
                },
                None => {},
            }
        }
        self.begin_cycle()
    }
}

/// The state and the action after the local task pass handed out task
/// number `k`, each task before it having returned without asking for
/// exit.
pub open spec fn nth_local<T, C>(s: LoopState<T, C>, k: nat) -> (LoopState<T, C>, Action<T, C>)
    decreases k,
{
    if k == 0 {
        s.run_local()
    } else {
        nth_local(s, (k - 1) as nat).0.step(Event::TaskDone)
    }
}

/// Local tasks run in queue order: the task pass hands out the task at
/// position `k` of the queue as its task number `k`. With `posted`,
/// `Mailbox::post` and `Mailbox::drain`, which all append, this is the
/// order of submission.
pub proof fn lemma_local_tasks_run_in_order<T, C>(s: LoopState<T, C>, k: nat)
    requires
        !s.exit_requested,
        k < s.local_tasks.len(),
    ensures
        nth_local(s, k).1 == Action::<T, C>::RunTask(s.local_tasks[k as int]),
        nth_local(s, k).0.local_tasks == s.local_tasks.skip(k as int + 1),
        nth_local(s, k).0.stage is Task,
        !nth_local(s, k).0.exit_requested,
    decreases k,
{
    if k == 0 {
        assert(s.local_tasks.drop_first() == s.local_tasks.skip(1));
    } else {
        lemma_local_tasks_run_in_order(s, (k - 1) as nat);
        let prev = nth_local(s, (k - 1) as nat).0;
        assert(prev.local_tasks[0] == s.local_tasks[k as int]);
        assert(prev.local_tasks.drop_first() == s.local_tasks.skip(k as int + 1));
    }
}

/// Tasks posted one after the other stand in the queue in that order,
/// behind what was queued before.
pub proof fn lemma_posts_keep_order<T, C>(s: LoopState<T, C>, a: T, b: T)
    ensures
        s.posted(a).posted(b).local_tasks == s.local_tasks + seq![a, b],
{
    assert(s.local_tasks.push(a).push(b) == s.local_tasks + seq![a, b]);
}

/// What the mailbox held goes behind the local queue, in mailbox order.
pub proof fn lemma_drained_tasks_keep_order<T, C>(s: LoopState<T, C>, tasks: VecDeque<T>)
    ensures
        s.step(Event::Drained(tasks)).0.local_tasks == s.local_tasks + tasks@,
        s.step(Event::Drained(tasks)).1 == Action::<T, C>::ReadClock,
{
}

/// The state and the action after the timer pass handed out timer number
/// `k`, each timer before it having returned without asking for exit.
pub open spec fn nth_fired<T, C>(s: LoopState<T, C>, k: nat) -> (LoopState<T, C>, Action<T, C>)
    decreases k,
{
    if k == 0 {
        s.fire_timers()
    } else {
        nth_fired(s, (k - 1) as nat).0.step(Event::TaskDone)
    }
}

/// Timers fire in queue order: as long as the timer at position `k` has
/// expired, the timer pass hands it out as its timer number `k`.
pub proof fn lemma_timers_fire_in_queue_order<T, C>(s: LoopState<T, C>, k: nat)
    requires
        !s.exit_requested,
        in_firing_order(s.timers),
        k < s.timers.len(),
        s.timers[k as int].when <= s.pass_now,
    ensures
        nth_fired(s, k).1 == Action::<T, C>::RunTask(s.timers[k as int].task),
        nth_fired(s, k).0.timers == s.timers.skip(k as int + 1),
        nth_fired(s, k).0.stage is Timer,
        nth_fired(s, k).0.pass_now == s.pass_now,
        !nth_fired(s, k).0.exit_requested,
    decreases k,
{
    if k == 0 {
        assert(s.timers.drop_first() == s.timers.skip(1));
    } else {
        assert(!s.timers[k as int].before(s.timers[k - 1]));
        lemma_timers_fire_in_queue_order(s, (k - 1) as nat);
        let prev = nth_fired(s, (k - 1) as nat).0;
        assert(prev.timers[0] == s.timers[k as int]);
        assert(prev.timers.drop_first() == s.timers.skip(k as int + 1));
    }
}

/// Two timers for the same deadline fire in the order they were added:
/// the one added first stands ahead in the queue. The sequence counter
/// must not wrap between the two.
pub proof fn lemma_equal_deadlines_fire_in_insertion_order<T, C>(
    s: LoopState<T, C>,
    now_a: u64,
    delay_a: u64,
    a: T,
    now_b: u64,
    delay_b: u64,
    b: T,
)
    requires
        in_firing_order(s.timers),
        now_a + delay_a <= u64::MAX,
        now_a + delay_a == now_b + delay_b,
        s.timer_seq < u64::MAX,
    ensures
        ({
            let q = s.delayed(now_a, delay_a, a).delayed(now_b, delay_b, b).timers;
            exists|i: int, j: int|
                0 <= i < j < q.len() && #[trigger] q[i].task == a && #[trigger] q[j].task == b
                    && q[i].when == now_a + delay_a && q[j].when == now_a + delay_a
        }),
{
    let ta = Timer { when: (now_a + delay_a) as u64, seq: s.timer_seq, task: a };
    let tb = Timer { when: (now_b + delay_b) as u64, seq: (s.timer_seq + 1) as u64, task: b };
    lemma_insertion_order_kept(s.timers, ta, tb);
    let q = s.delayed(now_a, delay_a, a).delayed(now_b, delay_b, b).timers;
    let i = slot(s.timers, ta);
    let j = slot(enqueue(s.timers, ta), tb);
    assert(q == enqueue(enqueue(s.timers, ta), tb));
    assert(q[i].task == a && q[j].task == b);
}

/// The source detached for a callback is never lost. When the callback
/// returns it is back in the table, unless the removal of its descriptor
/// or a registration for it is queued; then the table holds no source
/// for the descriptor, and the removal is queued.
pub proof fn lemma_detached_source_returns<T, C>(
    s: LoopState<T, C>,
    fd: i32,
    interest: Interest,
    callback: C,
)
    requires
        s.stage == (Stage::Callback { fd, interest }),
        !s.sources.contains_key(fd),
    ensures
        !s.pending_remove.contains(fd) && !addition_queued(s.pending_add, fd) ==> s.reattached(
            callback,
        ) == s.with_source(fd, Source { interest, callback }),
        s.pending_remove.contains(fd) || addition_queued(s.pending_add, fd) ==> {
            &&& s.reattached(callback).sources == s.sources
            &&& s.reattached(callback).pending_remove.contains(fd)
        },
        s.reattached(callback).pending_add == s.pending_add,
{
    if !s.pending_remove.contains(fd) && addition_queued(s.pending_add, fd) {
        let after = s.pending_remove.push(fd);
        assert(after[after.len() - 1] == fd);
    }
}

/// A callback that removes its own descriptor: the removal, queued
/// during the callback, takes effect by the end of the pass. The
/// detached source is not put back, the backend is asked to deregister
/// the descriptor, and the next cycle begins with no source for it.
pub proof fn lemma_removal_from_own_callback<T, C>(
    s: LoopState<T, C>,
    fd: i32,
    interest: Interest,
    callback: C,
    ok: bool,
)
    requires
        s.stage == (Stage::Callback { fd, interest }),
        !s.sources.contains_key(fd),
        s.batch.len() == 0,
        s.pending_remove.len() == 0,
        s.pending_add.len() == 0,
    ensures
        ({
            let during = s.remove_deferred(fd);
            let (s1, a1) = during.step(Event::Dispatched(callback));
            let (s2, a2) = s1.step(Event::Deregistered(ok));
            &&& during.sources == s.sources
            &&& a1 == Action::<T, C>::Deregister { fd }
            &&& !s1.in_dispatch
            &&& s1.sources == s.sources
            &&& s2.sources == s.sources
            &&& s2.pending_remove.len() == 0
            &&& (a2 is Drain || a2 is Exit)
        }),
{
    let during = s.remove_deferred(fd);
    assert(during.pending_remove[0] == fd);
    assert(during.pending_remove.contains(fd));
    let (s1, a1) = during.step(Event::Dispatched(callback));
    assert(during.pending_remove.drop_first().len() == 0);
    assert(s.sources.remove(fd) == s.sources);
}

/// A callback that replaces its own source, by removing the descriptor
/// and adding it again: both requests, queued during the callback, take
/// effect by the end of the pass. The old source is dropped, the backend
/// is asked to deregister and then to register the descriptor, and if it
/// accepts the registration the next cycle begins with the new source in
/// the table; if it refuses, with none.
pub proof fn lemma_replacement_from_own_callback<T, C>(
    s: LoopState<T, C>,
    fd: i32,
    interest: Interest,
    callback: C,
    replacement: Source<C>,
    removed: bool,
    added: bool,
)
    requires
        s.stage == (Stage::Callback { fd, interest }),
        !s.sources.contains_key(fd),
        s.batch.len() == 0,
        s.pending_remove.len() == 0,
        s.pending_add.len() == 0,
    ensures
        ({
            let during = s.remove_deferred(fd).add_deferred(fd, replacement);
            let (s1, a1) = during.step(Event::Dispatched(callback));
            let (s2, a2) = s1.step(Event::Deregistered(removed));
            let (s3, a3) = s2.step(Event::Registered(added));
            &&& during.sources == s.sources
            &&& a1 == Action::<T, C>::Deregister { fd }
            &&& a2 == Action::<T, C>::Register { fd, interest: replacement.interest }
            &&& s3.sources == (if added {
                s.sources.insert(fd, replacement)
            } else {
                s.sources
            })
            &&& s3.pending_remove.len() == 0
            &&& s3.pending_add.len() == 0
            &&& s3.staged is None
            &&& (a3 is Drain || a3 is Exit)
        }),
{
    let during = s.remove_deferred(fd).add_deferred(fd, replacement);
    assert(during.pending_remove[0] == fd);
    assert(during.pending_remove.contains(fd));
    assert(during.pending_add[0] == (fd, replacement));
    let (s1, a1) = during.step(Event::Dispatched(callback));
    assert(during.pending_remove.drop_first().len() == 0);
    assert(s.sources.remove(fd) == s.sources);
    let (s2, a2) = s1.step(Event::Deregistered(removed));
    assert(s1.pending_add.drop_first().len() == 0);
    let (s3, a3) = s2.step(Event::Registered(added));
}

/// A callback that registers its own descriptor anew, without removing
/// it first: the request, queued during the callback, takes effect by the
/// end of the pass. The detached source is dropped and not put back, the
/// backend is asked to deregister and then to register the descriptor
/// with the new interest, and if it accepts the registration the next
/// cycle begins with the new source in the table; if it refuses, with
/// none.
pub proof fn lemma_addition_from_own_callback<T, C>(
    s: LoopState<T, C>,
    fd: i32,
    interest: Interest,
    callback: C,
    addition: Source<C>,
    removed: bool,
    added: bool,
)
    requires
        s.stage == (Stage::Callback { fd, interest }),
        !s.sources.contains_key(fd),
        s.batch.len() == 0,
        s.pending_remove.len() == 0,
        s.pending_add.len() == 0,
    ensures
        ({
            let during = s.add_deferred(fd, addition);
            let (s1, a1) = during.step(Event::Dispatched(callback));
            let (s2, a2) = s1.step(Event::Deregistered(removed));
            let (s3, a3) = s2.step(Event::Registered(added));
            &&& during.sources == s.sources
            &&& a1 == Action::<T, C>::Deregister { fd }
            &&& !s1.sources.contains_key(fd)
            &&& a2 == Action::<T, C>::Register { fd, interest: addition.interest }
            &&& s3.sources == (if added {
                s.sources.insert(fd, addition)
            } else {
                s.sources
            })
            &&& s3.pending_remove.len() == 0
            &&& s3.pending_add.len() == 0
            &&& s3.staged is None
            &&& (a3 is Drain || a3 is Exit)
        }),
{
    let during = s.add_deferred(fd, addition);
    assert(during.pending_add[0] == (fd, addition));
    assert(addition_queued(during.pending_add, fd));
    let back = during.reattached(callback);
    assert(back == during.remove_deferred(fd));
    assert(back.pending_remove[0] == fd);
    let (s1, a1) = during.step(Event::Dispatched(callback));
    assert(back.pending_remove.drop_first().len() == 0);
    assert(s.sources.remove(fd) == s.sources);
    let (s2, a2) = s1.step(Event::Deregistered(removed));
    assert(s1.pending_add.drop_first().len() == 0);
    let (s3, a3) = s2.step(Event::Registered(added));
}

/// What the phases of the cycle need of the state they start from: the
/// timers in firing order and no registration staged.
pub open spec fn settled<T, C>(s: LoopState<T, C>) -> bool {
    in_firing_order(s.timers) && s.staged is None
}

/// The end of the task pass leaves a state that satisfies the invariant.
pub proof fn lemma_task_pass_keeps_inv<T, C>(s: LoopState<T, C>)
    requires
        settled(s),
    ensures
        s.begin_cycle().0.inv(),
        s.after_tasks().0.inv(),
        s.run_local().0.inv(),
        s.fire_timers().0.inv(),
{
    if s.timers.len() > 0 {
        let rest = s.timers.drop_first();
        assert forall|i: int, j: int| 0 <= i < j < rest.len() implies !(#[trigger] rest[j]).before(
            #[trigger] rest[i],
        ) by {
            assert(rest[i] == s.timers[i + 1] && rest[j] == s.timers[j + 1]);
        }
    }
}

/// Applying the queued registrations leaves a state that satisfies the
/// invariant.
pub proof fn lemma_additions_keep_inv<T, C>(s: LoopState<T, C>)
    requires
        settled(s),
    ensures
        s.apply_additions().0.inv(),
        s.apply_removals().0.inv(),
    decreases s.pending_add.len(),
{
    lemma_task_pass_keeps_inv(s);
    if s.pending_add.len() > 0 {
        let rest = LoopState { pending_add: s.pending_add.drop_first(), ..s };
        if s.sources.contains_key(s.pending_add[0].0) {
            lemma_additions_keep_inv(rest);
        }
    }
}

/// Dispatching detaches the source of the descriptor whose callback it
/// hands out: while that callback runs, the table holds no source for
/// the descriptor, and the callback handed out is the one that was
/// stored. Dispatching also leaves a state that satisfies the invariant.
pub proof fn lemma_dispatch_detaches<T, C>(s: LoopState<T, C>)
    requires
        settled(s),
        s.in_dispatch,
    ensures
        s.dispatch_next().0.inv(),
        s.dispatch_next().1 matches Action::Dispatch { fd, ready, callback } ==> {
            let next = s.dispatch_next().0;
            &&& s.sources.contains_key(fd)
            &&& s.sources[fd].callback == callback
            &&& next.sources == s.sources.remove(fd)
            &&& !next.sources.contains_key(fd)
            &&& next.stage == (Stage::Callback { fd, interest: s.sources[fd].interest })
            &&& next.in_dispatch
            &&& next.pending_remove == s.pending_remove
            &&& next.pending_add == s.pending_add
        },
        !(s.dispatch_next().1 is Dispatch) ==> !s.dispatch_next().0.in_dispatch
            && s.dispatch_next().0.batch.len() == 0,
    decreases s.batch.len(),
{
    if s.batch.len() == 0 {
        let quiet = LoopState { in_dispatch: false, ..s };
        lemma_additions_keep_inv(quiet);
        lemma_pass_end_is_quiet(quiet);
    } else {
        let rest = LoopState { batch: s.batch.drop_first(), ..s };
        if !s.sources.contains_key(s.batch[0].0) {
            lemma_dispatch_detaches(rest);
        }
    }
}

/// Once dispatch mode has ended, the rest of the pass hands out no
/// callback and does not enter dispatch mode again.
pub proof fn lemma_pass_end_is_quiet<T, C>(s: LoopState<T, C>)
    requires
        !s.in_dispatch,
    ensures
        !(s.apply_removals().1 is Dispatch),
        !s.apply_removals().0.in_dispatch,
        s.apply_removals().0.batch == s.batch,
        !(s.apply_additions().1 is Dispatch),
        !s.apply_additions().0.in_dispatch,
        s.apply_additions().0.batch == s.batch,
    decreases s.pending_add.len(),
{
    if s.pending_add.len() > 0 {
        let rest = LoopState { pending_add: s.pending_add.drop_first(), ..s };
        if s.sources.contains_key(s.pending_add[0].0) {
            lemma_pass_end_is_quiet(rest);
        }
    }
}

/// Every step of the cycle keeps the state invariant.
pub proof fn lemma_step_keeps_inv<T, C>(s: LoopState<T, C>, event: Event<T, C>)
    requires
        s.inv(),
        s.accepts(event),
    ensures
        s.step(event).0.inv(),
{
    match event {
        Event::Start => {
            lemma_task_pass_keeps_inv(s);
        },
        Event::Drained(tasks) => {},
        Event::Clock(now) => {
            lemma_task_pass_keeps_inv(LoopState { pass_now: now, ..s });
        },
        Event::TaskDone => {
            lemma_task_pass_keeps_inv(s);
        },
        Event::Woken(events) => {
            lemma_dispatch_detaches(LoopState { in_dispatch: true, batch: events@, ..s });
        },
        Event::WaitFailed => {},
        Event::Dispatched(callback) => {
            lemma_dispatch_detaches(s.reattached(callback));
        },
        Event::Deregistered(ok) => {
            lemma_additions_keep_inv(s.removal_settled(ok));
        },
        Event::Registered(ok) => {
            lemma_additions_keep_inv(s.addition_settled(ok));
        },
    }
}

/// The calls a closure may make on the loop while it runs keep the state
/// invariant.
pub proof fn lemma_calls_keep_inv<T, C>(
    s: LoopState<T, C>,
    task: T,
    now: u64,
    delay: u64,
    fd: i32,
    source: Source<C>,
)
    requires
        s.inv(),
    ensures
        s.posted(task).inv(),
        s.exiting().inv(),
        s.delayed(now, delay, task).inv(),
        s.add_deferred(fd, source).inv(),
        s.remove_deferred(fd).inv(),
        !s.in_dispatch ==> s.with_source(fd, source).inv(),
        s.without_source(fd).inv(),
{
    lemma_enqueue_keeps_order(
        s.timers,
        Timer { when: (now + delay) as u64, seq: s.timer_seq, task },
    );
}

/// The source table after the queued removals `fds` were applied, oldest
/// first: a source is dropped where the backend accepts the
/// deregistration of its descriptor, as `accepted` tells.
pub open spec fn removals_applied<C>(
    sources: Map<i32, Source<C>>,
    fds: Seq<i32>,
    accepted: spec_fn(i32) -> bool,
) -> Map<i32, Source<C>>
    decreases fds.len(),
{
    if fds.len() == 0 {
        sources
    } else {
        removals_applied(
            if accepted(fds[0]) {
                sources.remove(fds[0])
            } else {
                sources
            },
            fds.drop_first(),
            accepted,
        )
    }
}

/// The source table after the queued registrations `adds` were applied,
/// oldest first: a source is installed where its descriptor has none and
/// the backend accepts the registration, as `accepted` tells.
pub open spec fn additions_applied<C>(
    sources: Map<i32, Source<C>>,
    adds: Seq<(i32, Source<C>)>,
    accepted: spec_fn(i32) -> bool,
) -> Map<i32, Source<C>>
    decreases adds.len(),
{
    if adds.len() == 0 {
        sources
    } else {
        additions_applied(
            if !sources.contains_key(adds[0].0) && accepted(adds[0].0) {
                sources.insert(adds[0].0, adds[0].1)
            } else {
                sources
            },
            adds.drop_first(),
            accepted,
        )
    }
}

/// The state and the action once the backend has answered every
/// deregistration and registration that the end of a pass asks for, at
/// most `fuel` of them: `deregisters` and `registers` tell which
/// descriptors it accepts.
pub open spec fn pass_settled<T, C>(
    s: LoopState<T, C>,
    action: Action<T, C>,
    deregisters: spec_fn(i32) -> bool,
    registers: spec_fn(i32) -> bool,
    fuel: nat,
) -> (LoopState<T, C>, Action<T, C>)
    decreases fuel,
{
    if fuel == 0 {
        (s, action)
    } else {
        match action {
            Action::Deregister { fd } => {
                let next = s.step(Event::Deregistered(deregisters(fd)));
                pass_settled(next.0, next.1, deregisters, registers, (fuel - 1) as nat)
            },
            Action::Register { fd, interest } => {
                let next = s.step(Event::Registered(registers(fd)));
                pass_settled(next.0, next.1, deregisters, registers, (fuel - 1) as nat)
            },
            _ => (s, action),
        }
    }
}

proof fn lemma_additions_settle<T, C>(
    s: LoopState<T, C>,
    deregisters: spec_fn(i32) -> bool,
    registers: spec_fn(i32) -> bool,
    fuel: nat,
)
    requires
        s.staged is None,
        s.pending_remove.len() == 0,
        fuel >= s.pending_add.len(),
    ensures
        ({
            let start = s.apply_additions();
            let end = pass_settled(start.0, start.1, deregisters, registers, fuel);
            &&& end.1 is Drain || end.1 is Exit
            &&& end.0.sources == additions_applied(s.sources, s.pending_add, registers)
            &&& end.0.pending_remove.len() == 0
            &&& end.0.pending_add.len() == 0
            &&& end.0.staged is None
        }),
    decreases s.pending_add.len(),
{
    let start = s.apply_additions();
    if s.pending_add.len() == 0 {
        assert(start.1 is Drain || start.1 is Exit);
    } else {
        let fd = s.pending_add[0].0;
        let source = s.pending_add[0].1;
        let rest = LoopState { pending_add: s.pending_add.drop_first(), ..s };
        if s.sources.contains_key(fd) {
            lemma_additions_settle(rest, deregisters, registers, fuel);
        } else {
            let ok = registers(fd);
            let asked = start.0;
            assert(start.1 == Action::<T, C>::Register { fd, interest: source.interest });
            let answered = asked.addition_settled(ok);
            assert(asked.step(Event::Registered(ok)) == answered.apply_additions());
            lemma_additions_settle(answered, deregisters, registers, (fuel - 1) as nat);
        }
    }
}

/// Deferred changes take effect by the end of the pass. From the state
/// in which dispatch mode has just ended, answering every request the
/// loop makes of the backend leads to the start of the next cycle, with
/// both queues empty and with the table that results from applying first
/// the queued removals and then the queued registrations.
pub proof fn lemma_deferred_changes_take_effect<T, C>(
    s: LoopState<T, C>,
    deregisters: spec_fn(i32) -> bool,
    registers: spec_fn(i32) -> bool,
    fuel: nat,
)
    requires
        s.staged is None,
        fuel >= s.pending_remove.len() + s.pending_add.len(),
    ensures
        ({
            let start = s.apply_removals();
            let end = pass_settled(start.0, start.1, deregisters, registers, fuel);
            &&& end.1 is Drain || end.1 is Exit
            &&& end.0.sources == additions_applied(
                removals_applied(s.sources, s.pending_remove, deregisters),
                s.pending_add,
                registers,
            )
            &&& end.0.pending_remove.len() == 0
            &&& end.0.pending_add.len() == 0
            &&& end.0.staged is None
        }),
    decreases s.pending_remove.len(),
{
    let start = s.apply_removals();
    if s.pending_remove.len() == 0 {
        lemma_additions_settle(s, deregisters, registers, fuel);
    } else {
        let fd = s.pending_remove[0];
        let ok = deregisters(fd);
        let asked = start.0;
        assert(start.1 == Action::<T, C>::Deregister { fd });
        let answered = asked.removal_settled(ok);
        assert(asked.step(Event::Deregistered(ok)) == answered.apply_removals());
        lemma_deferred_changes_take_effect(answered, deregisters, registers, (fuel - 1) as nat);
    }
}

/// A queued removal that the backend accepts leaves no source for its
/// descriptor; and removals never add one.
pub proof fn lemma_removal_takes_effect<C>(
    sources: Map<i32, Source<C>>,
    fds: Seq<i32>,
    accepted: spec_fn(i32) -> bool,
    fd: i32,
)
    requires
        !sources.contains_key(fd) || (fds.contains(fd) && accepted(fd)),
    ensures
        !removals_applied(sources, fds, accepted).contains_key(fd),
    decreases fds.len(),
{
    if fds.len() > 0 {
        let next = if accepted(fds[0]) {
            sources.remove(fds[0])
        } else {
            sources
        };
        if next.contains_key(fd) {
            assert(fds[0] != fd);
            let i = choose|i: int| 0 <= i < fds.len() && fds[i] == fd;
            assert(fds.drop_first()[i - 1] == fd);
        }
        lemma_removal_takes_effect(next, fds.drop_first(), accepted, fd);
    }
}

/// Removals leave the sources of other descriptors alone.
pub proof fn lemma_removal_spares_others<C>(
    sources: Map<i32, Source<C>>,
    fds: Seq<i32>,
    accepted: spec_fn(i32) -> bool,
    fd: i32,
)
    requires
        !fds.contains(fd),
    ensures
        removals_applied(sources, fds, accepted).contains_key(fd) == sources.contains_key(fd),
        sources.contains_key(fd) ==> removals_applied(sources, fds, accepted)[fd] == sources[fd],
    decreases fds.len(),
{
    if fds.len() > 0 {
        assert(fds[0] != fd);
        let next = if accepted(fds[0]) {
            sources.remove(fds[0])
        } else {
            sources
        };
        assert forall|i: int| 0 <= i < fds.drop_first().len() implies fds.drop_first()[i]
            != fd by {
            assert(fds[i + 1] != fd);
        }
        lemma_removal_spares_others(next, fds.drop_first(), accepted, fd);
    }
}

/// A queued registration never displaces a source: a descriptor that has
/// one keeps it.
pub proof fn lemma_addition_keeps_present<C>(
    sources: Map<i32, Source<C>>,
    adds: Seq<(i32, Source<C>)>,
    accepted: spec_fn(i32) -> bool,
    fd: i32,
)
    requires
        sources.contains_key(fd),
    ensures
        additions_applied(sources, adds, accepted).contains_key(fd),
        additions_applied(sources, adds, accepted)[fd] == sources[fd],
    decreases adds.len(),
{
    if adds.len() > 0 {
        let next = if !sources.contains_key(adds[0].0) && accepted(adds[0].0) {
            sources.insert(adds[0].0, adds[0].1)
        } else {
            sources
        };
        lemma_addition_keeps_present(next, adds.drop_first(), accepted, fd);
    }
}

/// The oldest queued registration for a descriptor without a source
/// takes effect if the backend accepts it: its source is the one the
/// table holds afterwards.
pub proof fn lemma_addition_takes_effect<C>(
    sources: Map<i32, Source<C>>,
    adds: Seq<(i32, Source<C>)>,
    accepted: spec_fn(i32) -> bool,
    k: int,
)
    requires
        0 <= k < adds.len(),
        forall|j: int| 0 <= j < k ==> (#[trigger] adds[j]).0 != adds[k].0,
        !sources.contains_key(adds[k].0),
        accepted(adds[k].0),
    ensures
        additions_applied(sources, adds, accepted).contains_key(adds[k].0),
        additions_applied(sources, adds, accepted)[adds[k].0] == adds[k].1,
    decreases adds.len(),
{
    let next = if !sources.contains_key(adds[0].0) && accepted(adds[0].0) {
        sources.insert(adds[0].0, adds[0].1)
    } else {
        sources
    };
    if k == 0 {
        lemma_addition_keeps_present(next, adds.drop_first(), accepted, adds[0].0);
    } else {
        assert(adds[0].0 != adds[k].0);
        assert(adds.drop_first()[k - 1] == adds[k]);
        assert forall|j: int| 0 <= j < k - 1 implies (#[trigger] adds.drop_first()[j]).0
            != adds.drop_first()[k - 1].0 by {
            assert(adds.drop_first()[j] == adds[j + 1]);
        }
        lemma_addition_takes_effect(next, adds.drop_first(), accepted, k - 1);
    }
}

/// Registrations neither queued nor accepted do not appear: a
/// descriptor without a source stays without one where no registration
/// for it is queued, or where the backend refuses it.
pub proof fn lemma_addition_needs_queue_and_acceptance<C>(
    sources: Map<i32, Source<C>>,
    adds: Seq<(i32, Source<C>)>,
    accepted: spec_fn(i32) -> bool,
    fd: i32,
)
    requires
        !sources.contains_key(fd),
        !addition_queued(adds, fd) || !accepted(fd),
    ensures
        !additions_applied(sources, adds, accepted).contains_key(fd),
    decreases adds.len(),
{
    if adds.len() > 0 {
        let next = if !sources.contains_key(adds[0].0) && accepted(adds[0].0) {
            sources.insert(adds[0].0, adds[0].1)
        } else {
            sources
        };
        if addition_queued(adds.drop_first(), fd) {
            let i = choose|i: int|
                0 <= i < adds.drop_first().len() && (#[trigger] adds.drop_first()[i]).0 == fd;
            assert(adds[i + 1].0 == fd);
        }
        if adds[0].0 == fd {
            assert(addition_queued(adds, fd));
        }
        lemma_addition_needs_queue_and_acceptance(next, adds.drop_first(), accepted, fd);
    }
}

/// What a callback can do while it runs, and the driver when it returns.
pub enum DispatchMove<T, C> {
    /// The callback posts a task.
    Post(T),
    /// The callback asks the loop to exit.
    Exit,
    /// The callback starts a timer.
    Delay { now: u64, delay: u64, task: T },
    /// The callback registers a descriptor; the registration is queued.
    Add { fd: i32, source: Source<C> },
    /// The callback removes a descriptor; the removal is queued.
    Remove { fd: i32 },
    /// The callback returns and the loop goes on with the batch.
    Return(C),
}

/// The state after a move made while a callback runs.
pub open spec fn moved<T, C>(s: LoopState<T, C>, m: DispatchMove<T, C>) -> LoopState<T, C> {
    match m {
        DispatchMove::Post(task) => s.posted(task),
        DispatchMove::Exit => s.exiting(),
        DispatchMove::Delay { now, delay, task } => s.delayed(now, delay, task),
        DispatchMove::Add { fd, source } => s.add_deferred(fd, source),
        DispatchMove::Remove { fd } => s.remove_deferred(fd),
        DispatchMove::Return(callback) => s.step(Event::Dispatched(callback)).0,
    }
}

/// The state after the moves were made one after the other.
pub open spec fn moved_all<T, C>(s: LoopState<T, C>, moves: Seq<DispatchMove<T, C>>) -> LoopState<
    T,
    C,
>
    decreases moves.len(),
{
    if moves.len() == 0 {
        s
    } else {
        moved_all(moved(s, moves[0]), moves.drop_first())
    }
}

/// Whether a callback runs before each of the moves and after the last:
/// the moves stay within the dispatch of one batch.
pub open spec fn within_dispatch<T, C>(s: LoopState<T, C>, moves: Seq<DispatchMove<T, C>>) -> bool
    decreases moves.len(),
{
    s.stage is Callback && (moves.len() == 0 || within_dispatch(
        moved(s, moves[0]),
        moves.drop_first(),
    ))
}

/// The table holds no source for `fd`, and either the removal of `fd`
/// is queued, or the callback of `fd` itself is running and a
/// registration for `fd` is queued, so that the removal will be queued
/// when that callback returns.
pub open spec fn leaving<T, C>(s: LoopState<T, C>, fd: i32) -> bool {
    &&& !s.sources.contains_key(fd)
    &&& (s.pending_remove.contains(fd) || (s.stage matches Stage::Callback { fd: running, .. }
        && running == fd && addition_queued(s.pending_add, fd)))
}

/// A callback that asks for the removal of its own descriptor, or for a
/// new registration of it, puts the descriptor on its way out.
pub proof fn lemma_own_callback_requests_are_kept<T, C>(
    s: LoopState<T, C>,
    fd: i32,
    interest: Interest,
    source: Source<C>,
)
    requires
        s.inv(),
        s.stage == (Stage::Callback { fd, interest }),
    ensures
        leaving(s.remove_deferred(fd), fd),
        leaving(s.add_deferred(fd, source), fd),
        s.remove_deferred(fd).inv(),
        s.add_deferred(fd, source).inv(),
{
    let removes = s.pending_remove.push(fd);
    assert(removes[removes.len() - 1] == fd);
    let adds = s.pending_add.push((fd, source));
    assert(adds[adds.len() - 1].0 == fd);
}

/// When the batch gives no further callback, dispatch mode ends and the
/// queued removals are applied to the state as the last callback left
/// it.
pub proof fn lemma_dispatch_ends<T, C>(s: LoopState<T, C>)
    ensures
        !(s.dispatch_next().1 is Dispatch) ==> s.dispatch_next() == (LoopState {
            in_dispatch: false,
            batch: Seq::<(i32, Ready)>::empty(),
            ..s
        }).apply_removals(),
    decreases s.batch.len(),
{
    if s.batch.len() == 0 {
        assert(s.batch == Seq::<(i32, Ready)>::empty());
    } else {
        let rest = LoopState { batch: s.batch.drop_first(), ..s };
        if !s.sources.contains_key(s.batch[0].0) {
            lemma_dispatch_ends(rest);
        }
    }
}

/// A descriptor on its way out stays so through every move made while
/// the batch is dispatched, and its callback is not invoked again.
pub proof fn lemma_move_keeps_leaving<T, C>(s: LoopState<T, C>, m: DispatchMove<T, C>, fd: i32)
    requires
        s.inv(),
        s.stage is Callback,
        leaving(s, fd),
    ensures
        moved(s, m).inv(),
        moved(s, m).stage is Callback ==> leaving(moved(s, m), fd),
        m matches DispatchMove::Return(callback) ==> {
            &&& !(s.step(Event::Dispatched(callback)).1 matches Action::Dispatch {
                fd: again,
                ..
            } && again == fd)
            &&& !s.reattached(callback).sources.contains_key(fd)
            &&& s.reattached(callback).pending_remove.contains(fd)
            &&& s.reattached(callback).pending_add == s.pending_add
        },
{
    match m {
        DispatchMove::Post(task) => {},
        DispatchMove::Exit => {},
        DispatchMove::Delay { now, delay, task } => {
            lemma_enqueue_keeps_order(
                s.timers,
                Timer { when: (now + delay) as u64, seq: s.timer_seq, task },
            );
        },
        DispatchMove::Add { fd: other, source } => {
            if addition_queued(s.pending_add, fd) {
                let i = choose|i: int|
                    0 <= i < s.pending_add.len() && (#[trigger] s.pending_add[i]).0 == fd;
                assert(s.pending_add.push((other, source))[i].0 == fd);
            }
        },
        DispatchMove::Remove { fd: other } => {
            if s.pending_remove.contains(fd) {
                let i = choose|i: int| 0 <= i < s.pending_remove.len() && s.pending_remove[i] == fd;
                assert(s.pending_remove.push(other)[i] == fd);
            }
        },
        DispatchMove::Return(callback) => {
            lemma_step_keeps_inv(s, Event::Dispatched(callback));
            let back = s.reattached(callback);
            if !s.pending_remove.contains(fd) {
                let removes = s.pending_remove.push(fd);
                assert(removes[removes.len() - 1] == fd);
            } else {
                let i = choose|i: int| 0 <= i < s.pending_remove.len() && s.pending_remove[i] == fd;
                match s.stage {
                    Stage::Callback { fd: running, .. } => {
                        assert(s.pending_remove.push(running)[i] == fd);
                    },
                    _ => {},
                }
            }
            assert(back.pending_remove.contains(fd));
            assert(!back.sources.contains_key(fd));
            lemma_dispatch_detaches(back);
        },
    }
}

/// A descriptor on its way out stays so through any moves made while the
/// batch is dispatched.
pub proof fn lemma_moves_keep_leaving<T, C>(
    s: LoopState<T, C>,
    moves: Seq<DispatchMove<T, C>>,
    fd: i32,
)
    requires
        s.inv(),
        leaving(s, fd),
        within_dispatch(s, moves),
    ensures
        moved_all(s, moves).inv(),
        moved_all(s, moves).stage is Callback,
        leaving(moved_all(s, moves), fd),
    decreases moves.len(),
{
    if moves.len() > 0 {
        let next = moved(s, moves[0]);
        assert(next.stage is Callback) by {
            reveal_with_fuel(within_dispatch, 2);
        }
        lemma_move_keeps_leaving(s, moves[0], fd);
        lemma_moves_keep_leaving(next, moves.drop_first(), fd);
    }
}

/// Removal and registration asked for from a callback take effect by the
/// end of the pass, whatever else happens in the pass. Let `fd` be on
/// its way out, as it is once its own callback has asked for its removal
/// or for a new registration of it. Then through all further moves of
/// the pass, the return of the last callback and the answers of the
/// backend, the next cycle begins with the table that results from the
/// queued removals and registrations; in it `fd` has the source of the
/// oldest registration queued for it, if there is one and the backend
/// accepts it, and no source otherwise. The source it had is gone.
pub proof fn lemma_callback_changes_take_effect<T, C>(
    s: LoopState<T, C>,
    fd: i32,
    moves: Seq<DispatchMove<T, C>>,
    last: C,
    deregisters: spec_fn(i32) -> bool,
    registers: spec_fn(i32) -> bool,
    fuel: nat,
)
    requires
        s.inv(),
        leaving(s, fd),
        within_dispatch(s, moves),
        !(moved_all(s, moves).step(Event::Dispatched(last)).1 is Dispatch),
        fuel >= moved_all(s, moves).reattached(last).pending_remove.len() + moved_all(
            s,
            moves,
        ).pending_add.len(),
    ensures
        ({
            let before = moved_all(s, moves);
            let back = before.reattached(last);
            let start = before.step(Event::Dispatched(last));
            let end = pass_settled(start.0, start.1, deregisters, registers, fuel);
            &&& end.1 is Drain || end.1 is Exit
            &&& end.0.pending_remove.len() == 0
            &&& end.0.pending_add.len() == 0
            &&& end.0.sources == additions_applied(
                removals_applied(back.sources, back.pending_remove, deregisters),
                before.pending_add,
                registers,
            )
            &&& (!addition_queued(before.pending_add, fd) || !registers(fd)
                ==> !end.0.sources.contains_key(fd))
            &&& forall|k: int|
                0 <= k < before.pending_add.len() && (#[trigger] before.pending_add[k]).0 == fd
                    && registers(fd) && (forall|j: int|
                    0 <= j < k ==> (#[trigger] before.pending_add[j]).0 != fd)
                    ==> end.0.sources.contains_key(fd) && end.0.sources[fd]
                    == before.pending_add[k].1
        }),
{
    lemma_moves_keep_leaving(s, moves, fd);
    let before = moved_all(s, moves);
    lemma_move_keeps_leaving(before, DispatchMove::Return(last), fd);
    let back = before.reattached(last);
    lemma_dispatch_ends(back);
    let quiet = LoopState { in_dispatch: false, batch: Seq::<(i32, Ready)>::empty(), ..back };
    assert(before.step(Event::Dispatched(last)) == quiet.apply_removals());
    assert(quiet.staged is None);
    lemma_deferred_changes_take_effect(quiet, deregisters, registers, fuel);
    let cleared = removals_applied(quiet.sources, quiet.pending_remove, deregisters);
    lemma_removal_takes_effect(quiet.sources, quiet.pending_remove, deregisters, fd);
    if !addition_queued(before.pending_add, fd) || !registers(fd) {
        lemma_addition_needs_queue_and_acceptance(cleared, before.pending_add, registers, fd);
    }
    assert forall|k: int|
        0 <= k < before.pending_add.len() && (#[trigger] before.pending_add[k]).0 == fd
            && registers(fd) && (forall|j: int|
            0 <= j < k ==> (#[trigger] before.pending_add[j]).0 != fd) implies additions_applied(
        cleared,
        before.pending_add,
        registers,
    ).contains_key(fd) && additions_applied(cleared, before.pending_add, registers)[fd]
        == before.pending_add[k].1 by {
        lemma_addition_takes_effect(cleared, before.pending_add, registers, k);
    }
}

} // verus!
