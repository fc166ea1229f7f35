//! What the two readiness backends share: the error they report, the
//! timeout they hand to the system call, and the choice between them.

use super::epoll::EpollBackend;
use super::poll::PollBackend;
use super::types::BackendKind;
use vstd::prelude::*;

verus! {

/// Why a backend operation failed.
#[derive(Debug, Clone, Copy, PartialEq, Eq, Structural)]
pub enum BackendError {
    /// The epoll backend was asked for on a target that is not Linux.
    Unsupported,
    /// A system call failed; the driver reads the OS error.
    Os,
}

/// Nanoseconds in a millisecond.
pub const NANOS_PER_MILLI: u64 = 1_000_000;

/// The timeout argument of the wait system call: whole milliseconds,
/// saturated into a signed 32-bit integer, or -1 to block indefinitely.
pub open spec fn millis(timeout: Option<u64>) -> int {
    match timeout {
        None => -1,
        Some(nanos) => if nanos / NANOS_PER_MILLI > i32::MAX {
            i32::MAX as int
        } else {
            (nanos / NANOS_PER_MILLI) as int
        },
    }
}

/// Converts a timeout in nanoseconds to the argument of the wait system
/// call.
pub fn timeout_millis(timeout: Option<u64>) -> (ms: i32)
    ensures
        ms == millis(timeout),
{
    match timeout {
        None => -1,
        Some(nanos) => {
            let whole: u64 = nanos / NANOS_PER_MILLI;
            if whole > 0x7fff_ffff {
                i32::MAX
            } else {
                whole as i32
            }
        },
    }
}

/// A readiness backend of either kind.
pub enum Backend {
    Epoll(EpollBackend),
    Poll(PollBackend),
}

impl Backend {
    /// Builds the backend of the given kind. `linux` tells whether the
    /// target is Linux; `epfd` is what creating the epoll instance
    /// returned, and is looked at only for an epoll backend on Linux.
    pub fn new(kind: BackendKind, linux: bool, epfd: i32) -> (r: Result<Backend, BackendError>)
        ensures
            kind == BackendKind::Poll ==> (r matches Ok(Backend::Poll(p)) && p.wf() && p@.len()
                == 0),
            kind == BackendKind::Epoll && !linux ==> r == Err::<Backend, BackendError>(
                BackendError::Unsupported,
            ),
            kind == BackendKind::Epoll && linux && epfd < 0 ==> r == Err::<Backend, BackendError>(
                BackendError::Os,
            ),
            kind == BackendKind::Epoll && linux && epfd >= 0 ==> (r matches Ok(
                Backend::Epoll(e),
            ) && e.fd() == epfd),
    {
        match kind {
            BackendKind::Poll => Ok(Backend::Poll(PollBackend::new())),
            BackendKind::Epoll => {
                if !linux {
                    Err(BackendError::Unsupported)
                } else {
                    match EpollBackend::new(epfd) {
                        Ok(e) => Ok(Backend::Epoll(e)),
                        Err(e) => Err(e),
                    }
                }
            },
        }
    }
}

} // verus!
