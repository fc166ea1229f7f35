//! Plain values exchanged between the reactor, its readiness backend and
//! the callbacks it dispatches.

use vstd::prelude::*;

verus! {

/// Which OS multiplexer a loop is built on.
#[derive(Debug, Clone, Copy, PartialEq, Eq, Structural)]
pub enum BackendKind {
    Epoll,
    Poll,
}

/// The event classes a registration asks the backend to report.
#[derive(Debug, Clone, Copy, PartialEq, Eq, Structural)]
pub enum Interest {
    Readable,
    Writable,
    ReadWrite,
}

impl Interest {
    /// Whether the registration asks for read readiness.
    pub open spec fn wants_read(self) -> bool {
        self == Interest::Readable || self == Interest::ReadWrite
    }

    /// Whether the registration asks for write readiness.
    pub open spec fn wants_write(self) -> bool {
        self == Interest::Writable || self == Interest::ReadWrite
    }
}

/// The four readiness bits a backend reports for one descriptor in one
/// wakeup. `error` and `hup` are delivered whatever the interest was.
#[derive(Debug, Clone, Copy, PartialEq, Eq, Structural)]
pub struct Ready {
    pub readable: bool,
    pub writable: bool,
    pub error: bool,
    pub hup: bool,
}

impl Ready {
    /// No bit set.
    pub open spec fn none() -> Ready {
        Ready { readable: false, writable: false, error: false, hup: false }
    }

    /// True when at least one of the four bits is set.
    pub open spec fn any(self) -> bool {
        self.readable || self.writable || self.error || self.hup
    }

    /// Bitwise union of two reports.
    pub open spec fn union(self, other: Ready) -> Ready {
        Ready {
            readable: self.readable || other.readable,
            writable: self.writable || other.writable,
            error: self.error || other.error,
            hup: self.hup || other.hup,
        }
    }

    /// A report that must wake a reader: readable, error or hang-up.
    pub open spec fn wakes_reader(self) -> bool {
        self.readable || self.error || self.hup
    }

    /// A report that must wake a writer: writable, error or hang-up.
    pub open spec fn wakes_writer(self) -> bool {
        self.writable || self.error || self.hup
    }
}

impl Default for Ready {
    fn default() -> (r: Ready)
        ensures
            r == Ready::none(),
    {
        Ready { readable: false, writable: false, error: false, hup: false }
    }
}

} // verus!
