//! The wakeup pipe: how the loop's end of it is emptied.
//!
//! A byte in the pipe carries no information beyond "wake up". The loop
//! registers the read end for read readiness; its callback reads until
//! the pipe has nothing more to give.

use super::types::Interest;
use super::types::Ready;
use vstd::prelude::*;

verus! {

/// The byte a wakeup writes.
pub const WAKE_BYTE: u8 = 1;

/// Size of the buffer the pipe is read into.
pub const DRAIN_CHUNK: usize = 128;

/// What one read of a non-blocking descriptor gave.
#[derive(Debug, Clone, Copy, PartialEq, Eq, Structural)]
pub enum ReadOutcome {
    /// This many bytes; zero at the end of the stream.
    Read(usize),
    /// Nothing now; the read would have blocked.
    WouldBlock,
    /// Another error.
    Failed,
}

/// The interest to register the read end with.
pub fn pipe_interest() -> (i: Interest)
    ensures
        i == Interest::Readable,
{
    Interest::Readable
}

/// Whether the callback reads at all: only for a report that says
/// readable.
pub fn starts_drain(ready: Ready) -> (go: bool)
    ensures
        go == ready.readable,
{
    ready.readable
}

/// Whether the callback reads again after a read that gave `outcome`:
/// only after one that gave bytes.
pub fn keeps_draining(outcome: ReadOutcome) -> (go: bool)
    ensures
        go == (outcome matches ReadOutcome::Read(n) && n > 0),
{
    match outcome {
        ReadOutcome::Read(n) => n > 0,
        ReadOutcome::WouldBlock => false,
        ReadOutcome::Failed => false,
    }
}

} // verus!
