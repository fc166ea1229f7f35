//! The handle that ends a registration when it is stopped or dropped.

use vstd::prelude::*;

verus! {

/// Watches one descriptor. Stopping the watcher, or dropping one that
/// was not stopped, asks once for the descriptor's deregistration.
pub struct IoWatcher {
    fd: i32,
    active: bool,
}

impl IoWatcher {
    /// The descriptor watched.
    pub closed spec fn watched(&self) -> i32 {
        self.fd
    }

    /// Whether the deregistration is still owed.
    pub closed spec fn is_active(&self) -> bool {
        self.active
    }

    /// A watcher for `fd`, which has just been registered.
    pub fn new(fd: i32) -> (w: Self)
        ensures
            w.watched() == fd,
            w.is_active(),
    {
        IoWatcher { fd, active: true }
    }

    /// The descriptor watched.
    pub fn fd(&self) -> (fd: i32)
        ensures
            fd == self.watched(),
    {
        self.fd
    }

    /// Stops watching: returns the descriptor whose removal the caller
    /// posts to the loop, and owes nothing more.
    pub fn stop(&mut self) -> (fd: i32)
        ensures
            fd == old(self).watched(),
            final(self).watched() == old(self).watched(),
            !final(self).is_active(),
    {
        self.active = false;
        self.fd
    }

    /// What is owed when the watcher goes away: the descriptor whose
    /// removal the caller posts to the loop, or nothing after `stop`.
    pub fn release(&self) -> (fd: Option<i32>)
        ensures
            fd == (if self.is_active() {
                Some(self.watched())
            } else {
                None
            }),
    {
        if !self.active {
            return None;
        }
        Some(self.fd)
    }
}

} // verus!
