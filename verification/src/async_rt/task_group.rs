//! Waiting for a changing set of fire-and-forget computations.

use super::types::Poll;
use vstd::prelude::*;

verus! {

/// The group as a mathematical value.
pub struct GroupState<W> {
    /// Computations spawned and not yet finished.
    pub active: nat,
    /// The waker of the joiner that waits.
    pub join_waker: Option<W>,
}

impl<W> GroupState<W> {
    /// A group without members.
    pub open spec fn empty() -> Self {
        GroupState { active: 0, join_waker: None }
    }

    /// After a member was spawned.
    pub open spec fn spawned(self) -> Self {
        GroupState { active: self.active + 1, ..self }
    }

    /// After a member finished: the one that brings the count to zero
    /// takes the joiner's waker out.
    pub open spec fn finished(self) -> Self {
        GroupState {
            active: (self.active - 1) as nat,
            join_waker: if self.active == 1 {
                None
            } else {
                self.join_waker
            },
        }
    }

    /// After the joiner's poll with `waker`.
    pub open spec fn joined(self, waker: W) -> Self {
        if self.active == 0 {
            self
        } else {
            GroupState { join_waker: Some(waker), ..self }
        }
    }
}

/// The count of running members and the joiner that waits for it to
/// reach zero. `W` is the type of a waker.
pub struct TaskGroup<W> {
    active: usize,
    join_waker: Option<W>,
}

impl<W> View for TaskGroup<W> {
    type V = GroupState<W>;

    closed spec fn view(&self) -> GroupState<W> {
        GroupState { active: self.active as nat, join_waker: self.join_waker }
    }
}

impl<W> TaskGroup<W> {
    /// A group without members.
    pub fn new() -> (g: Self)
        ensures
            g@ == GroupState::<W>::empty(),
    {
        TaskGroup { active: 0, join_waker: None }
    }

    /// Counts a new member in. The caller spawns the computation, wrapped
    /// so that it calls `finish` when it ends.
    pub fn spawn(&mut self)
        requires
            old(self)@.active < usize::MAX,
        ensures
            final(self)@ == old(self)@.spawned(),
    {
        self.active = self.active + 1;
    }

    /// Counts a member out. Returns the joiner's waker, for the caller to
    /// wake, if this was the last member.
    pub fn finish(&mut self) -> (wake: Option<W>)
        requires
            old(self)@.active > 0,
        ensures
            final(self)@ == old(self)@.finished(),
            wake == (if old(self)@.active == 1 {
                old(self)@.join_waker
            } else {
                None
            }),
    {
        let before = self.active;
        self.active = self.active - 1;
        if before == 1 {
            self.join_waker.take()
        } else {
            None
        }
    }

    /// The joiner's poll: ready when no member runs; else stores `waker`
    /// and waits.
    pub fn join(&mut self, waker: W) -> (r: Poll<()>)
        ensures
            r == (if old(self)@.active == 0 {
                Poll::Ready(())
            } else {
                Poll::Pending
            }),
            final(self)@ == old(self)@.joined(waker),
    {
        if self.active == 0 {
            return Poll::Ready(());
        }
        self.join_waker = Some(waker);
        Poll::Pending
    }

    /// Number of members that run.
    pub fn active(&self) -> (n: usize)
        ensures
            n == self@.active,
    {
        self.active
    }
}

} // verus!
