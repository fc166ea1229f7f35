//! The current loop: which loop, if any, the running code belongs to.
//!
//! A driver keeps one slot per thread. It enters a loop around every
//! closure that the loop runs, and leaves it afterwards; code that needs
//! the loop from inside a future reads the slot.

use super::executor::Executor;
use super::executor::Task;
use super::executor::TaskState;
use vstd::prelude::*;

verus! {

/// What the slot holds while a loop is entered: a reference to the loop,
/// and the handle through which work is posted to it.
pub struct Current<L, H> {
    pub loop_ref: L,
    pub handle: H,
}

/// The slot that names the current loop.
pub struct LoopSlot<L, H> {
    current: Option<Current<L, H>>,
}

/// What the slot held before a loop was entered.
pub struct LoopGuard<L, H> {
    prev: Option<Current<L, H>>,
}

impl<L, H> View for LoopSlot<L, H> {
    type V = Option<Current<L, H>>;

    closed spec fn view(&self) -> Option<Current<L, H>> {
        self.current
    }
}

impl<L, H> View for LoopGuard<L, H> {
    type V = Option<Current<L, H>>;

    closed spec fn view(&self) -> Option<Current<L, H>> {
        self.prev
    }
}

impl<L, H> LoopSlot<L, H> {
    /// An empty slot: no loop is current.
    pub fn new() -> (s: Self)
        ensures
            s@ is None,
    {
        LoopSlot { current: None }
    }

    /// Whether a loop is current.
    pub fn is_entered(&self) -> (b: bool)
        ensures
            b == self@ is Some,
    {
        self.current.is_some()
    }
}

impl<L, H> LoopGuard<L, H> {
    /// Makes the given loop current. The guard remembers what was current
    /// before, so that runs can nest.
    pub fn enter(slot: &mut LoopSlot<L, H>, loop_ref: L, handle: H) -> (g: Self)
        ensures
            final(slot)@ == Some(Current { loop_ref, handle }),
            g@ == old(slot)@,
    {
        let prev = slot.current.take();
        slot.current = Some(Current { loop_ref, handle });
        LoopGuard { prev }
    }

    /// Leaves the loop: the slot holds again what it held before `enter`.
    pub fn exit(self, slot: &mut LoopSlot<L, H>)
        ensures
            final(slot)@ == self@,
    {
        slot.current = self.prev;
    }
}

/// Runs `f` on the current loop. There must be one: code that needs the
/// loop runs only inside a closure of that loop.
pub fn with_current_loop<L, H, R, G: FnOnce(&L) -> R>(slot: &LoopSlot<L, H>, f: G) -> (r: R)
    requires
        slot@ is Some,
        f.requires((&slot@->0.loop_ref,)),
    ensures
        f.ensures((&slot@->0.loop_ref,), r),
{
    let cur = slot.current.as_ref().unwrap();
    f(&cur.loop_ref)
}

/// An executor for the current loop: it posts through a clone of that
/// loop's handle. There must be a current loop.
pub fn current_executor<L, H: Clone>(slot: &LoopSlot<L, H>) -> (e: Executor<H>)
    requires
        slot@ is Some,
    ensures
        cloned(slot@->0.handle, e.loop_handle()),
{
    let cur = slot.current.as_ref().unwrap();
    Executor::new(cur.handle.clone())
}

/// Spawns `fut` on the current loop: returns the executor to post
/// through and the task, scheduled for its first poll. There must be a
/// current loop.
pub fn spawn<L, H: Clone, F>(slot: &LoopSlot<L, H>, fut: F) -> (r: (Executor<H>, Task<F>))
    requires
        slot@ is Some,
    ensures
        cloned(slot@->0.handle, r.0.loop_handle()),
        r.1.wf(),
        r.1@ == TaskState::created(fut).requested(),
{
    let exec = current_executor(slot);
    let task = exec.spawn(fut);
    (exec, task)
}

} // verus!
