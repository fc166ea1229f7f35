//! The retry rules of the stream wrappers: what to do with the result of
//! one non-blocking socket call.

use vstd::prelude::*;

verus! {

/// Most bytes one receive asks for.
pub const RECV_CHUNK: usize = 4096;

/// What one non-blocking socket call gave.
#[derive(Debug, Clone, Copy, PartialEq, Eq, Structural)]
pub enum IoOutcome {
    /// It transferred this many bytes.
    Done(usize),
    /// It would have blocked.
    WouldBlock,
    /// It failed otherwise; the caller holds the OS error.
    Failed,
}

/// Why a stream operation failed.
#[derive(Debug, Clone, Copy, PartialEq, Eq, Structural)]
pub enum NetError {
    /// A write accepted no byte although some were left to send.
    WriteZero,
    /// The socket call failed; the caller holds the OS error.
    Os,
}

/// What follows one receive.
pub enum RecvStep {
    /// The peer closed the stream.
    Eof,
    /// These bytes arrived.
    Chunk(Vec<u8>),
    /// Nothing yet: wait for read readiness and receive again into the
    /// buffer returned.
    AwaitReadable(Vec<u8>),
    /// The receive failed.
    Failed(NetError),
}

/// What follows one accept or one send.
#[derive(Debug, Clone, Copy, PartialEq, Eq, Structural)]
pub enum Retry {
    /// Go on: the call succeeded.
    Proceed,
    /// Wait for readiness, then call again.
    Await,
    /// Give up with this error.
    Failed(NetError),
}

/// Reads the result of one accept: a connection, a wait for read
/// readiness, or a failure.
pub fn accept_step(accepted: bool, would_block: bool) -> (r: Retry)
    ensures
        r == (if accepted {
            Retry::Proceed
        } else if would_block {
            Retry::Await
        } else {
            Retry::Failed(NetError::Os)
        }),
{
    if accepted {
        Retry::Proceed
    } else if would_block {
        Retry::Await
    } else {
        Retry::Failed(NetError::Os)
    }
}

/// The bytes a receive of `n` bytes into `buf` yields: the first `n`, or
/// all of `buf` if it holds fewer.
pub open spec fn received(buf: Seq<u8>, n: usize) -> Seq<u8> {
    if n <= buf.len() {
        buf.take(n as int)
    } else {
        buf
    }
}

/// Reads the result of one receive into `buf`: zero bytes are the end
/// of the stream; `n` bytes are a chunk made of the first `n` bytes of
/// `buf`; a call that would have blocked is repeated after read
/// readiness.
pub fn recv_step(outcome: IoOutcome, buf: Vec<u8>) -> (r: RecvStep)
    ensures
        match outcome {
            IoOutcome::Done(n) => if n == 0 {
                r is Eof
            } else {
                r matches RecvStep::Chunk(chunk) && chunk@ == received(buf@, n)
            },
            IoOutcome::WouldBlock => r matches RecvStep::AwaitReadable(b) && b@ == buf@,
            IoOutcome::Failed => r matches RecvStep::Failed(e) && e == NetError::Os,
        },
{
    match outcome {
        IoOutcome::Done(n) => {
            if n == 0 {
                RecvStep::Eof
            } else {
                let mut chunk = buf;
                if n <= chunk.len() {
                    chunk.truncate(n);
                }
                RecvStep::Chunk(chunk)
            }
        },
        IoOutcome::WouldBlock => RecvStep::AwaitReadable(buf),
        IoOutcome::Failed => RecvStep::Failed(NetError::Os),
    }
}

/// How far a send of `len` bytes has come.
pub struct SendAll {
    offset: usize,
    len: usize,
}

impl SendAll {
    /// Bytes sent so far.
    pub closed spec fn sent(&self) -> nat {
        self.offset as nat
    }

    /// Bytes to send in all.
    pub closed spec fn total(&self) -> nat {
        self.len as nat
    }

    /// Never more sent than there is to send.
    pub closed spec fn wf(&self) -> bool {
        self.offset <= self.len
    }

    /// A send of `len` bytes of which none has gone out.
    pub fn new(len: usize) -> (s: Self)
        ensures
            s.wf(),
            s.sent() == 0,
            s.total() == len,
    {
        SendAll { offset: 0, len }
    }

    /// Where the next write starts, or nothing once all bytes are out.
    pub fn next(&self) -> (from: Option<usize>)
        ensures
            from == (if self.sent() < self.total() {
                Some(self.sent() as usize)
            } else {
                None
            }),
    {
        if self.offset < self.len {
            Some(self.offset)
        } else {
            None
        }
    }

    /// Reads the result of one write of the bytes from `next()` on. A
    /// write of zero bytes is an error; a write of `n` bytes advances by
    /// `n`, though not past the end; a write that would have blocked is
    /// repeated after write readiness.
    pub fn wrote(&mut self, outcome: IoOutcome) -> (r: Retry)
        requires
            old(self).wf(),
        ensures
            final(self).wf(),
            final(self).total() == old(self).total(),
            match outcome {
                IoOutcome::Done(n) => if n == 0 {
                    r == Retry::Failed(NetError::WriteZero) && final(self).sent() == old(self).sent()
                } else {
                    r == Retry::Proceed && final(self).sent() == (if old(self).sent() + n
                        <= old(self).total() {
                        old(self).sent() + n
                    } else {
                        old(self).total() as int
                    })
                },
                IoOutcome::WouldBlock => r == Retry::Await && final(self).sent() == old(self).sent(),
                IoOutcome::Failed => r == Retry::Failed(NetError::Os) && final(self).sent()
                    == old(self).sent(),
            },
    {
        match outcome {
            IoOutcome::Done(n) => {
                if n == 0 {
                    Retry::Failed(NetError::WriteZero)
                } else {
                    if n <= self.len - self.offset {
                        self.offset = self.offset + n;
                    } else {
                        self.offset = self.len;
                    }
                    Retry::Proceed
                }
            },
            IoOutcome::WouldBlock => Retry::Await,
            IoOutcome::Failed => Retry::Failed(NetError::Os),
        }
    }
}

} // verus!
