//! The bridge between a descriptor's readiness and the readers and
//! writers that wait for it.

use super::types::Poll;
use crate::runtime::types::Interest;
use crate::runtime::types::Ready;
use vstd::prelude::*;

verus! {

/// The bridge as a mathematical value: the readiness seen and not yet
/// consumed, and who waits.
pub struct AsyncFdState<W> {
    pub ready: Ready,
    pub read_waker: Option<W>,
    pub write_waker: Option<W>,
}

/// The wakers to wake after a readiness report.
pub struct Wakeups<W> {
    pub reader: Option<W>,
    pub writer: Option<W>,
}

impl<W> AsyncFdState<W> {
    /// Nothing seen, nobody waiting.
    pub open spec fn idle() -> Self {
        AsyncFdState { ready: Ready::none(), read_waker: None, write_waker: None }
    }

    /// After the loop reported `ready`: the bits are merged into those
    /// kept, and a side whose bits are now set gives up its waker.
    pub open spec fn reported(self, ready: Ready) -> Self {
        let merged = self.ready.union(ready);
        AsyncFdState {
            ready: merged,
            read_waker: if merged.wakes_reader() {
                None
            } else {
                self.read_waker
            },
            write_waker: if merged.wakes_writer() {
                None
            } else {
                self.write_waker
            },
        }
    }

    /// The wakers that a report of `ready` releases.
    pub open spec fn woken(self, ready: Ready) -> Wakeups<W> {
        let merged = self.ready.union(ready);
        Wakeups {
            reader: if merged.wakes_reader() {
                self.read_waker
            } else {
                None
            },
            writer: if merged.wakes_writer() {
                self.write_waker
            } else {
                None
            },
        }
    }

    /// What a reader's poll yields: the four bits as they stand, if one of
    /// readable, error and hang-up is set.
    pub open spec fn read_outcome(self) -> Poll<Ready> {
        if self.ready.wakes_reader() {
            Poll::Ready(self.ready)
        } else {
            Poll::Pending
        }
    }

    /// After a reader's poll with `waker`: the bits it saw, but for
    /// writable, are consumed; or it waits.
    pub open spec fn read_polled(self, waker: W) -> Self {
        if self.ready.wakes_reader() {
            AsyncFdState {
                ready: Ready { readable: false, error: false, hup: false, ..self.ready },
                ..self
            }
        } else {
            AsyncFdState { read_waker: Some(waker), ..self }
        }
    }

    /// What a writer's poll yields: the four bits as they stand, if one of
    /// writable, error and hang-up is set.
    pub open spec fn write_outcome(self) -> Poll<Ready> {
        if self.ready.wakes_writer() {
            Poll::Ready(self.ready)
        } else {
            Poll::Pending
        }
    }

    /// After a writer's poll with `waker`: the bits it saw, but for
    /// readable, are consumed; or it waits.
    pub open spec fn write_polled(self, waker: W) -> Self {
        if self.ready.wakes_writer() {
            AsyncFdState {
                ready: Ready { writable: false, error: false, hup: false, ..self.ready },
                ..self
            }
        } else {
            AsyncFdState { write_waker: Some(waker), ..self }
        }
    }
}

/// The state shared by an async descriptor and the callback that the
/// loop invokes for it. `W` is the type of a waker.
pub struct AsyncFd<W> {
    readable: bool,
    writable: bool,
    error: bool,
    hup: bool,
    read_waker: Option<W>,
    write_waker: Option<W>,
}

impl<W> View for AsyncFd<W> {
    type V = AsyncFdState<W>;

    closed spec fn view(&self) -> AsyncFdState<W> {
        AsyncFdState {
            ready: Ready {
                readable: self.readable,
                writable: self.writable,
                error: self.error,
                hup: self.hup,
            },
            read_waker: self.read_waker,
            write_waker: self.write_waker,
        }
    }
}

impl<W> AsyncFd<W> {
    /// The state of a descriptor of which nothing is known yet.
    pub fn new() -> (a: Self)
        ensures
            a@ == AsyncFdState::<W>::idle(),
    {
        AsyncFd {
            readable: false,
            writable: false,
            error: false,
            hup: false,
            read_waker: None,
            write_waker: None,
        }
    }

    /// The interest to register the descriptor with: both directions.
    pub fn interest(&self) -> (i: Interest)
        ensures
            i == Interest::ReadWrite,
    {
        Interest::ReadWrite
    }

    /// The loop's callback: merges `ready` into the bits kept and returns
    /// the wakers to wake. The reader's waker is taken if one of readable,
    /// error and hang-up is now set; the writer's if one of writable, error
    /// and hang-up is.
    pub fn on_ready(&mut self, ready: Ready) -> (w: Wakeups<W>)
        ensures
            final(self)@ == old(self)@.reported(ready),
            w == old(self)@.woken(ready),
    {
        self.readable = self.readable || ready.readable;
        self.writable = self.writable || ready.writable;
        self.error = self.error || ready.error;
        self.hup = self.hup || ready.hup;
        let mut reader: Option<W> = None;
        let mut writer: Option<W> = None;
        if self.readable || self.error || self.hup {
            reader = self.read_waker.take();
        }
        if self.writable || self.error || self.hup {
            writer = self.write_waker.take();
        }
        Wakeups { reader, writer }
    }

    /// A reader's poll. If one of readable, error and hang-up is set, the
    /// four bits are yielded and those three cleared; writable stays for
    /// the writer. Else `waker` is stored as the reader's and the reader
    /// waits.
    pub fn readable(&mut self, waker: W) -> (r: Poll<Ready>)
        ensures
            r == old(self)@.read_outcome(),
            final(self)@ == old(self)@.read_polled(waker),
    {
        if self.readable || self.error || self.hup {
            let out = Ready {
                readable: self.readable,
                writable: self.writable,
                error: self.error,
                hup: self.hup,
            };
            self.readable = false;
            self.error = false;
            self.hup = false;
            return Poll::Ready(out);
        }
        self.read_waker = Some(waker);
        Poll::Pending
    }

    /// A writer's poll. If one of writable, error and hang-up is set, the
    /// four bits are yielded and those three cleared; readable stays for
    /// the reader. Else `waker` is stored as the writer's and the writer
    /// waits.
    pub fn writable(&mut self, waker: W) -> (r: Poll<Ready>)
        ensures
            r == old(self)@.write_outcome(),
            final(self)@ == old(self)@.write_polled(waker),
    {
        if self.writable || self.error || self.hup {
            let out = Ready {
                readable: self.readable,
                writable: self.writable,
                error: self.error,
                hup: self.hup,
            };
            self.writable = false;
            self.error = false;
            self.hup = false;
            return Poll::Ready(out);
        }
        self.write_waker = Some(waker);
        Poll::Pending
    }
}

/// A report with error or hang-up releases the waiting reader and the
/// waiting writer, each once: both wakers are handed out and neither slot
/// keeps one, so that a second report wakes nobody.
pub proof fn lemma_error_wakes_both<W>(s: AsyncFdState<W>, ready: Ready, again: Ready)
    requires
        ready.error || ready.hup,
    ensures
        s.woken(ready).reader == s.read_waker,
        s.woken(ready).writer == s.write_waker,
        s.reported(ready).read_waker is None,
        s.reported(ready).write_waker is None,
        s.reported(ready).woken(again).reader is None,
        s.reported(ready).woken(again).writer is None,
{
}

/// Error and hang-up are consumed by the side that polls first: it sees
/// them, and the other side then sees them no more. It is ready only if
/// its own bit is set.
pub proof fn lemma_error_consumed_by_first<W>(s: AsyncFdState<W>, w: W)
    requires
        s.ready.error || s.ready.hup,
    ensures
        s.read_outcome() == Poll::Ready(s.ready),
        !s.read_polled(w).ready.error && !s.read_polled(w).ready.hup,
        s.read_polled(w).write_outcome() is Ready <==> s.ready.writable,
        s.write_outcome() == Poll::Ready(s.ready),
        !s.write_polled(w).ready.error && !s.write_polled(w).ready.hup,
        s.write_polled(w).read_outcome() is Ready <==> s.ready.readable,
{
}

} // verus!
