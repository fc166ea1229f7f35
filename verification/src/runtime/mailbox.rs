//! The shared mailbox: the one way from other threads into the loop.
//!
//! The driver guards a mailbox with a lock and shares it between the loop
//! and its handles. A handle posts a task and then pokes the wakeup pipe;
//! the loop takes everything out once per cycle.

use std::collections::VecDeque;
use vstd::prelude::*;

verus! {

/// Why a task could not be posted.
#[derive(Debug, Clone, Copy, PartialEq, Eq, Structural)]
pub enum PostError {
    /// The loop is gone.
    Closed,
}

/// The mailbox as a mathematical value.
pub struct MailboxState<T> {
    /// Tasks posted and not yet taken, oldest first.
    pub queue: Seq<T>,
    pub closed: bool,
}

/// Tasks posted to a loop from anywhere, waiting to be taken by it.
pub struct Mailbox<T> {
    queue: VecDeque<T>,
    closed: bool,
}

impl<T> View for Mailbox<T> {
    type V = MailboxState<T>;

    closed spec fn view(&self) -> MailboxState<T> {
        MailboxState { queue: self.queue@, closed: self.closed }
    }
}

impl<T> Mailbox<T> {
    /// An open, empty mailbox.
    pub fn new() -> (m: Self)
        ensures
            m@ == (MailboxState { queue: Seq::<T>::empty(), closed: false }),
    {
        Mailbox { queue: VecDeque::new(), closed: false }
    }

    /// Posts `task` behind those already posted. Fails once the loop is
    /// gone; the task is then dropped. After a successful post the caller
    /// pokes the wakeup pipe, and ignores a failure to do so.
    pub fn post(&mut self, task: T) -> (r: Result<(), PostError>)
        ensures
            old(self)@.closed ==> r == Err::<(), PostError>(PostError::Closed) && final(self)@
                == old(self)@,
            !old(self)@.closed ==> r == Ok::<(), PostError>(()) && final(self)@ == (MailboxState {
                queue: old(self)@.queue.push(task),
                closed: false,
            }),
    {
        if self.closed {
            return Err(PostError::Closed);
        }
        self.queue.push_back(task);
        Ok(())
    }

    /// Takes out everything posted so far, oldest first.
    pub fn drain(&mut self) -> (tasks: VecDeque<T>)
        ensures
            tasks@ == old(self)@.queue,
            final(self)@ == (MailboxState { queue: Seq::<T>::empty(), closed: old(self)@.closed }),
    {
        let mut tasks: VecDeque<T> = VecDeque::new();
        std::mem::swap(&mut tasks, &mut self.queue);
        tasks
    }

    /// Marks the loop as gone: what is still queued is dropped, and later
    /// posts fail.
    pub fn close(&mut self)
        ensures
            final(self)@ == (MailboxState { queue: Seq::<T>::empty(), closed: true }),
    {
        self.closed = true;
        self.queue.clear();
    }

    /// Number of tasks waiting to be taken.
    pub fn len(&self) -> (n: usize)
        ensures
            n == self@.queue.len(),
    {
        self.queue.len()
    }

    /// Whether the loop is gone.
    pub fn is_closed(&self) -> (b: bool)
        ensures
            b == self@.closed,
    {
        self.closed
    }
}

} // verus!
