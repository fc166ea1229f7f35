//! The epoll backend without its system calls: what to hand to
//! `epoll_ctl` for a registration, and how to read what `epoll_wait`
//! filled in.

use super::backend::BackendError;
use super::types::Interest;
use super::types::Ready;
use vstd::prelude::*;

verus! {

pub const EPOLL_CLOEXEC: i32 = 0x80000;

pub const EPOLL_CTL_ADD: i32 = 1;

pub const EPOLL_CTL_DEL: i32 = 2;

pub const EPOLLIN: u32 = 0x001;

pub const EPOLLOUT: u32 = 0x004;

pub const EPOLLERR: u32 = 0x008;

pub const EPOLLHUP: u32 = 0x010;

/// Number of events one wait can return.
pub const MAX_EVENTS: usize = 1024;

/// One entry of the kernel's event buffer.
#[derive(Debug, Clone, Copy, PartialEq, Eq, Structural)]
pub struct EpollEvent {
    pub events: u32,
    pub data: u64,
}

/// The arguments of one `epoll_ctl` call. `event` is absent for a
/// deletion.
#[derive(Debug, Clone, Copy, PartialEq, Eq, Structural)]
pub struct EpollCtl {
    pub op: i32,
    pub fd: i32,
    pub event: Option<EpollEvent>,
}

/// The event mask for an interest. Error and hang-up are reported by the
/// kernel without being asked for.
pub open spec fn interest_mask(interest: Interest) -> u32 {
    match interest {
        Interest::Readable => EPOLLIN,
        Interest::Writable => EPOLLOUT,
        Interest::ReadWrite => EPOLLIN | EPOLLOUT,
    }
}

/// The user-data word that carries a descriptor.
pub open spec fn data_of(fd: i32) -> u64 {
    fd as u64
}

/// The descriptor carried by a user-data word.
pub open spec fn fd_of(data: u64) -> i32 {
    data as i32
}

/// The readiness that an event mask reports.
pub open spec fn ready_of(events: u32) -> Ready {
    Ready {
        readable: events & EPOLLIN != 0,
        writable: events & EPOLLOUT != 0,
        error: events & EPOLLERR != 0,
        hup: events & EPOLLHUP != 0,
    }
}

/// The report for one kernel event: the descriptor from its user-data
/// word with the readiness that its mask reports, if the mask holds at
/// least one of the readable, writable, error and hang-up bits; none
/// otherwise.
pub open spec fn report(ev: EpollEvent) -> Option<(i32, Ready)> {
    if ready_of(ev.events).any() {
        Some((fd_of(ev.data), ready_of(ev.events)))
    } else {
        None
    }
}

/// The error number for a descriptor that is not registered with the
/// epoll instance.
pub const ENOENT: i32 = 2;

/// The error number for a descriptor that is not open.
pub const EBADF: i32 = 9;

/// Whether an error number of a deletion says that the epoll instance
/// does not know the descriptor: it was never registered, was
/// deregistered before, or was closed, which deregisters it.
pub open spec fn unknown_descriptor(errno: i32) -> bool {
    errno == ENOENT || errno == EBADF
}

/// How many entries of a buffer a wait that returned `rc` has filled.
pub open spec fn filled(rc: i32, len: nat) -> int {
    if rc < 0 {
        0
    } else if rc <= len {
        rc as int
    } else {
        len as int
    }
}

/// A descriptor survives the trip through the user-data word.
pub proof fn lemma_fd_round_trip(fd: i32)
    ensures
        fd_of(data_of(fd)) == fd,
{
    assert((fd as u64) as i32 == fd) by (bit_vector);
}

/// The mask for an interest holds the read bit exactly when reads are
/// wanted, the write bit exactly when writes are wanted, and no other
/// bit.
pub proof fn lemma_interest_mask(interest: Interest)
    ensures
        ready_of(interest_mask(interest)) == (Ready {
            readable: interest.wants_read(),
            writable: interest.wants_write(),
            error: false,
            hup: false,
        }),
{
    assert(0x001u32 & 0x001u32 != 0 && 0x001u32 & 0x004u32 == 0 && 0x001u32 & 0x008u32 == 0
        && 0x001u32 & 0x010u32 == 0) by (bit_vector);
    assert(0x004u32 & 0x001u32 == 0 && 0x004u32 & 0x004u32 != 0 && 0x004u32 & 0x008u32 == 0
        && 0x004u32 & 0x010u32 == 0) by (bit_vector);
    assert((0x001u32 | 0x004u32) & 0x001u32 != 0 && (0x001u32 | 0x004u32) & 0x004u32 != 0 && (
    0x001u32 | 0x004u32) & 0x008u32 == 0 && (0x001u32 | 0x004u32) & 0x010u32 == 0)
        by (bit_vector);
}

/// An epoll instance, known by its descriptor.
pub struct EpollBackend {
    epfd: i32,
}

impl EpollBackend {
    /// The descriptor of the epoll instance.
    pub closed spec fn fd(&self) -> i32 {
        self.epfd
    }

    /// Wraps what creating the epoll instance returned: a negative value
    /// is a failed system call.
    pub fn new(epfd: i32) -> (r: Result<EpollBackend, BackendError>)
        ensures
            epfd < 0 ==> r == Err::<EpollBackend, BackendError>(BackendError::Os),
            epfd >= 0 ==> (r matches Ok(b) && b.fd() == epfd),
    {
        if epfd < 0 {
            Err(BackendError::Os)
        } else {
            Ok(EpollBackend { epfd })
        }
    }

    /// The descriptor of the epoll instance.
    pub fn epfd(&self) -> (fd: i32)
        ensures
            fd == self.fd(),
    {
        self.epfd
    }

    /// The `epoll_ctl` call that registers `fd` for `interest`. The
    /// user-data word carries the descriptor.
    pub fn register(&self, fd: i32, interest: Interest) -> (ctl: EpollCtl)
        ensures
            ctl == (EpollCtl {
                op: EPOLL_CTL_ADD,
                fd,
                event: Some(EpollEvent { events: interest_mask(interest), data: data_of(fd) }),
            }),
    {
        let events = match interest {
            Interest::Readable => EPOLLIN,
            Interest::Writable => EPOLLOUT,
            Interest::ReadWrite => EPOLLIN | EPOLLOUT,
        };
        EpollCtl { op: EPOLL_CTL_ADD, fd, event: Some(EpollEvent { events, data: fd as u64 }) }
    }

    /// The `epoll_ctl` call that deregisters `fd`.
    pub fn deregister(&self, fd: i32) -> (ctl: EpollCtl)
        ensures
            ctl == (EpollCtl { op: EPOLL_CTL_DEL, fd, event: None }),
    {
        EpollCtl { op: EPOLL_CTL_DEL, fd, event: None }
    }

    /// Reads the result of the `epoll_ctl` call that `deregister` asked
    /// for: `rc` is its return code and `errno` the error number it left,
    /// which is looked at only where `rc` is negative. A descriptor that
    /// the epoll instance does not know is tolerated; any other failure
    /// is an error.
    pub fn settle_deregister(&self, rc: i32, errno: i32) -> (r: Result<(), BackendError>)
        ensures
            rc >= 0 || unknown_descriptor(errno) ==> r == Ok::<(), BackendError>(()),
            rc < 0 && !unknown_descriptor(errno) ==> r == Err::<(), BackendError>(
                BackendError::Os,
            ),
    {
        if rc >= 0 || errno == ENOENT || errno == EBADF {
            Ok(())
        } else {
            Err(BackendError::Os)
        }
    }

    /// Reads the return code of the `epoll_ctl` call that `register`
    /// asked for: negative is failure.
    pub fn settle(&self, rc: i32) -> (r: Result<(), BackendError>)
        ensures
            rc < 0 ==> r == Err::<(), BackendError>(BackendError::Os),
            rc >= 0 ==> r == Ok::<(), BackendError>(()),
    {
        if rc < 0 {
            Err(BackendError::Os)
        } else {
            Ok(())
        }
    }

    /// Reads what `epoll_wait` returned: `rc` is its return code and
    /// `events` the buffer it filled. A negative `rc` is failure; else
    /// the first `rc` entries of the buffer are looked at in order, and
    /// each whose mask holds a readable, writable, error or hang-up bit
    /// is reported, with the descriptor from its user-data word.
    pub fn wait(&self, rc: i32, events: &Vec<EpollEvent>) -> (r: Result<
        Vec<(i32, Ready)>,
        BackendError,
    >)
        ensures
            rc < 0 ==> r == Err::<Vec<(i32, Ready)>, BackendError>(BackendError::Os),
            rc >= 0 ==> (r matches Ok(out) && out@ == events@.take(
                filled(rc, events@.len()),
            ).filter_map(|ev: EpollEvent| report(ev))),
    {
        if rc < 0 {
            return Err(BackendError::Os);
        }
        let n: usize = if rc as usize <= events.len() {
            rc as usize
        } else {
            events.len()
        };
        let mut out: Vec<(i32, Ready)> = Vec::new();
        let mut i: usize = 0;
        while i < n
            invariant
                i <= n <= events@.len(),
                out@ == events@.take(i as int).filter_map(|ev: EpollEvent| report(ev)),
            decreases n - i,
        {
            let ev = events[i];
            let bits = ev.events;
            proof {
                events@.lemma_filter_map_take_succ(|ev: EpollEvent| report(ev), i as int);
            }
            let ready = Ready {
                readable: (bits & EPOLLIN) != 0,
                writable: (bits & EPOLLOUT) != 0,
                error: (bits & EPOLLERR) != 0,
                hup: (bits & EPOLLHUP) != 0,
            };
            if ready.readable || ready.writable || ready.error || ready.hup {
                out.push((ev.data as i32, ready));
            }
            i += 1;
        }
        Ok(out)
    }
}

} // verus!
