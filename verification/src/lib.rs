//! A sans-I/O core for a single-threaded reactor and the task executor
//! that runs on it.
//!
//! Nothing in this crate blocks, reads a clock or touches a descriptor.
//! Every component is a state machine over plain values: the caller performs
//! the system calls, runs the closures and polls the futures, and reports
//! back what happened.

use vstd::prelude::*;

pub mod async_rt;
pub mod runtime;

pub use runtime::{BackendKind, EventLoop, Interest, IoWatcher, Ready};

verus! {

/// The backend to use when none is asked for: epoll on Linux, poll
/// elsewhere. `linux` tells whether the target is Linux.
pub fn default_backend(linux: bool) -> (kind: BackendKind)
    ensures
        kind == (if linux {
            BackendKind::Epoll
        } else {
            BackendKind::Poll
        }),
{
    if linux {
        BackendKind::Epoll
    } else {
        BackendKind::Poll
    }
}

/// The backend that the first command-line argument selects: the word
/// `poll`, the word `epoll`, or the default for anything else and for
/// no argument.
pub open spec fn selected(arg: Option<Seq<char>>, linux: bool) -> BackendKind {
    match arg {
        Some(word) => if word == "poll"@ {
            BackendKind::Poll
        } else if word == "epoll"@ {
            BackendKind::Epoll
        } else if linux {
            BackendKind::Epoll
        } else {
            BackendKind::Poll
        },
        None => if linux {
            BackendKind::Epoll
        } else {
            BackendKind::Poll
        },
    }
}

/// The characters of an argument that may be absent.
pub open spec fn chars_of(arg: Option<&str>) -> Option<Seq<char>> {
    match arg {
        Some(s) => Some(s@),
        None => None,
    }
}

/// The backend chosen by the first positional argument of the command
/// line: `poll`, `epoll`, or anything else, or nothing, for the default.
pub fn backend_from_args(arg: Option<&str>, linux: bool) -> (kind: BackendKind)
    ensures
        kind == selected(chars_of(arg), linux),
{
    match arg {
        Some(s) => {
            let word = s.to_owned();
            if word == "poll".to_owned() {
                BackendKind::Poll
            } else if word == "epoll".to_owned() {
                BackendKind::Epoll
            } else {
                default_backend(linux)
            }
        },
        None => default_backend(linux),
    }
}

} // verus!
