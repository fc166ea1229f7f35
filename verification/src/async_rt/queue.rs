//! An unbounded mailbox with many writers and one reader.

use super::types::Poll;
use std::collections::VecDeque;
use vstd::prelude::*;

verus! {

/// The queue as a mathematical value.
pub struct QueueState<T, W> {
    /// Items not yet popped, oldest first.
    pub buf: Seq<T>,
    pub closed: bool,
    /// The waker of the reader that waits.
    pub waiter: Option<W>,
}

impl<T, W> QueueState<T, W> {
    /// An open queue without items.
    pub open spec fn empty() -> Self {
        QueueState { buf: Seq::empty(), closed: false, waiter: None }
    }

    /// After `push(item)`: a closed queue drops the item.
    pub open spec fn pushed(self, item: T) -> Self {
        if self.closed {
            self
        } else {
            QueueState { buf: self.buf.push(item), waiter: None, ..self }
        }
    }

    /// After `close()`.
    pub open spec fn shut(self) -> Self {
        QueueState { closed: true, waiter: None, ..self }
    }

    /// What the reader's poll yields: the oldest item; or "none" once the
    /// queue is closed and empty.
    pub open spec fn pop_outcome(self) -> Poll<Option<T>> {
        if self.buf.len() > 0 {
            Poll::Ready(Some(self.buf[0]))
        } else if self.closed {
            Poll::Ready(None)
        } else {
            Poll::Pending
        }
    }

    /// After the reader's poll with `waker`.
    pub open spec fn popped(self, waker: W) -> Self {
        if self.buf.len() > 0 {
            QueueState { buf: self.buf.drop_first(), ..self }
        } else if self.closed {
            self
        } else {
            QueueState { waiter: Some(waker), ..self }
        }
    }
}

/// An unbounded queue for one reader. `T` is the type of an item, `W` of
/// a waker. There is one waiter slot: a second reader would displace the
/// first.
pub struct AsyncQueue<T, W> {
    buf: VecDeque<T>,
    closed: bool,
    waiter: Option<W>,
}

impl<T, W> View for AsyncQueue<T, W> {
    type V = QueueState<T, W>;

    closed spec fn view(&self) -> QueueState<T, W> {
        QueueState { buf: self.buf@, closed: self.closed, waiter: self.waiter }
    }
}

impl<T, W> AsyncQueue<T, W> {
    /// An open queue without items.
    pub fn new() -> (q: Self)
        ensures
            q@ == QueueState::<T, W>::empty(),
    {
        AsyncQueue { buf: VecDeque::new(), closed: false, waiter: None }
    }

    /// Appends `item` and returns the waiting reader's waker for the
    /// caller to wake. A closed queue drops the item and wakes nobody.
    pub fn push(&mut self, item: T) -> (wake: Option<W>)
        ensures
            final(self)@ == old(self)@.pushed(item),
            wake == (if old(self)@.closed {
                None
            } else {
                old(self)@.waiter
            }),
    {
        if self.closed {
            return None;
        }
        self.buf.push_back(item);
        self.waiter.take()
    }

    /// Closes the queue and returns the waiting reader's waker for the
    /// caller to wake. Items already queued can still be popped.
    pub fn close(&mut self) -> (wake: Option<W>)
        ensures
            final(self)@ == old(self)@.shut(),
            wake == old(self)@.waiter,
    {
        self.closed = true;
        self.waiter.take()
    }

    /// The reader's poll: yields the oldest item if there is one, "none"
    /// if the queue is closed and empty; else stores `waker`, in place
    /// of any stored, and waits.
    pub fn pop(&mut self, waker: W) -> (r: Poll<Option<T>>)
        ensures
            r == old(self)@.pop_outcome(),
            final(self)@ == old(self)@.popped(waker),
    {
        match self.buf.pop_front() {
            Some(v) => {
                assert(self.buf@ == old(self)@.buf.drop_first());
                return Poll::Ready(Some(v));
            },
            None => {},
        }
        if self.closed {
            return Poll::Ready(None);
        }
        self.waiter = Some(waker);
        Poll::Pending
    }

    /// Number of items not yet popped.
    pub fn len(&self) -> (n: usize)
        ensures
            n == self@.buf.len(),
    {
        self.buf.len()
    }

    /// Whether the queue was closed.
    pub fn is_closed(&self) -> (b: bool)
        ensures
            b == self@.closed,
    {
        self.closed
    }
}

/// The queue after `n` polls of the reader, each with the waker that
/// `wakers` gives for its turn.
pub open spec fn after_pops<T, W>(s: QueueState<T, W>, wakers: spec_fn(nat) -> W, n: nat)
    -> QueueState<T, W>
    decreases n,
{
    if n == 0 {
        s
    } else {
        after_pops(s, wakers, (n - 1) as nat).popped(wakers((n - 1) as nat))
    }
}

/// A closed queue is drained before it reports its end: poll number `k`
/// yields item `k` while there are items, every later poll yields "none",
/// and no poll waits.
pub proof fn lemma_closed_queue_drains<T, W>(s: QueueState<T, W>, wakers: spec_fn(nat) -> W, k: nat)
    requires
        s.closed,
    ensures
        after_pops(s, wakers, k).closed,
        after_pops(s, wakers, k).buf == (if k <= s.buf.len() {
            s.buf.skip(k as int)
        } else {
            Seq::<T>::empty()
        }),
        after_pops(s, wakers, k).pop_outcome() == (if k < s.buf.len() {
            Poll::Ready(Some(s.buf[k as int]))
        } else {
            Poll::<Option<T>>::Ready(None)
        }),
    decreases k,
{
    if k > 0 {
        lemma_closed_queue_drains(s, wakers, (k - 1) as nat);
        let prev = after_pops(s, wakers, (k - 1) as nat);
        if k <= s.buf.len() {
            assert(s.buf.skip(k - 1).drop_first() == s.buf.skip(k as int));
        }
    } else {
        assert(s.buf.skip(0) == s.buf);
    }
}

/// Items come out in the order they went in: after pushes of `a` and
/// then `b` onto an open queue, `a` is ahead of `b`.
pub proof fn lemma_queue_is_fifo<T, W>(s: QueueState<T, W>, a: T, b: T)
    requires
        !s.closed,
    ensures
        s.pushed(a).pushed(b).buf == s.buf.push(a).push(b),
{
}

} // verus!
