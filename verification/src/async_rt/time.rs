//! Sleeping: a future around one timer.

use super::types::Poll;
use vstd::prelude::*;

verus! {

/// The sleep as a mathematical value.
pub struct SleepState<W> {
    /// How long to sleep, in nanoseconds.
    pub delay: u64,
    /// The timer fired.
    pub fired: bool,
    /// The timer was handed to the loop.
    pub started: bool,
    /// The waker of the sleeper.
    pub waker: Option<W>,
}

/// What a poll of a sleep yields.
#[derive(Debug, Clone, Copy, PartialEq, Eq, Structural)]
pub enum SleepPoll {
    /// The time is up.
    Ready,
    /// Not yet. With `Some(delay)` the caller must now hand the loop a
    /// timer of that delay which calls `fire`.
    Pending(Option<u64>),
}

impl<W> SleepState<W> {
    /// A sleep not yet polled.
    pub open spec fn created(delay: u64) -> Self {
        SleepState { delay, fired: false, started: false, waker: None }
    }

    /// What a poll yields.
    pub open spec fn outcome(self) -> SleepPoll {
        if self.fired {
            SleepPoll::Ready
        } else if !self.started {
            SleepPoll::Pending(Some(self.delay))
        } else {
            SleepPoll::Pending(None)
        }
    }

    /// After a poll with `waker`.
    pub open spec fn polled(self, waker: W) -> Self {
        if self.fired {
            self
        } else {
            SleepState { waker: Some(waker), started: true, ..self }
        }
    }

    /// After the timer fired.
    pub open spec fn rung(self) -> Self {
        SleepState { fired: true, waker: None, ..self }
    }
}

/// The state shared by a sleeping future and its timer. `W` is the type
/// of a waker.
pub struct Sleep<W> {
    delay: u64,
    fired: bool,
    started: bool,
    waker: Option<W>,
}

impl<W> View for Sleep<W> {
    type V = SleepState<W>;

    closed spec fn view(&self) -> SleepState<W> {
        SleepState {
            delay: self.delay,
            fired: self.fired,
            started: self.started,
            waker: self.waker,
        }
    }
}

/// A sleep of `delay` nanoseconds, which starts at its first poll.
pub fn sleep<W>(delay: u64) -> (s: Sleep<W>)
    ensures
        s@ == SleepState::<W>::created(delay),
{
    Sleep { delay, fired: false, started: false, waker: None }
}

impl<W> Sleep<W> {
    /// The sleeper's poll. Ready once the timer fired. Else `waker` is
    /// stored, and the first such poll asks the caller to start the
    /// timer.
    pub fn poll(&mut self, waker: W) -> (r: SleepPoll)
        ensures
            r == old(self)@.outcome(),
            final(self)@ == old(self)@.polled(waker),
    {
        if self.fired {
            return SleepPoll::Ready;
        }
        self.waker = Some(waker);
        if !self.started {
            self.started = true;
            return SleepPoll::Pending(Some(self.delay));
        }
        SleepPoll::Pending(None)
    }

    /// The timer's closure: marks the sleep over and returns the
    /// sleeper's waker for the caller to wake.
    pub fn fire(&mut self) -> (wake: Option<W>)
        ensures
            final(self)@ == old(self)@.rung(),
            wake == old(self)@.waker,
    {
        self.fired = true;
        self.waker.take()
    }
}

/// A sleep asks for its timer exactly once, at its first poll, and is
/// ready at every poll after the timer fired.
pub proof fn lemma_sleep_starts_once<W>(delay: u64, w1: W, w2: W)
    ensures
        SleepState::<W>::created(delay).outcome() == SleepPoll::Pending(Some(delay)),
        SleepState::<W>::created(delay).polled(w1).outcome() == SleepPoll::Pending(None),
        SleepState::<W>::created(delay).polled(w1).rung().outcome() == SleepPoll::Ready,
        SleepState::<W>::created(delay).polled(w1).rung().polled(w2).outcome()
            == SleepPoll::Ready,
{
}

} // verus!
