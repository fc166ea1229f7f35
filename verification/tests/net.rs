use eventloop_async_research::async_rt::net::{
    accept_step, recv_step, IoOutcome, NetError, RecvStep, Retry, SendAll, RECV_CHUNK,
};
use eventloop_async_research::runtime::io_watcher::IoWatcher;
use eventloop_async_research::runtime::mailbox::{Mailbox, PostError};
use eventloop_async_research::runtime::types::{Interest, Ready};
use eventloop_async_research::runtime::waker::{
    keeps_draining, pipe_interest, starts_drain, ReadOutcome, DRAIN_CHUNK, WAKE_BYTE,
};

#[test]
fn accept_step_retries_on_would_block() {
    assert_eq!(accept_step(true, false), Retry::Proceed);
    assert_eq!(accept_step(false, true), Retry::Await);
    assert_eq!(accept_step(false, false), Retry::Failed(NetError::Os));
}

#[test]
fn recv_step_truncates_the_chunk() {
    assert_eq!(RECV_CHUNK, 4096);
    let buf = vec![1u8, 2, 3, 4, 5];
    match recv_step(IoOutcome::Done(3), buf.clone()) {
        RecvStep::Chunk(c) => assert_eq!(c, vec![1, 2, 3]),
        _ => panic!("expected a chunk"),
    }
    match recv_step(IoOutcome::Done(9), buf.clone()) {
        RecvStep::Chunk(c) => assert_eq!(c, buf),
        _ => panic!("expected a chunk"),
    }
    assert!(matches!(recv_step(IoOutcome::Done(0), buf.clone()), RecvStep::Eof));
    match recv_step(IoOutcome::WouldBlock, buf.clone()) {
        RecvStep::AwaitReadable(b) => assert_eq!(b, buf),
        _ => panic!("expected a wait"),
    }
    assert!(matches!(
        recv_step(IoOutcome::Failed, buf),
        RecvStep::Failed(NetError::Os)
    ));
}

#[test]
fn send_all_advances_until_everything_is_out() {
    let mut s = SendAll::new(10);
    assert_eq!(s.next(), Some(0));
    assert_eq!(s.wrote(IoOutcome::Done(4)), Retry::Proceed);
    assert_eq!(s.next(), Some(4));
    assert_eq!(s.wrote(IoOutcome::WouldBlock), Retry::Await);
    assert_eq!(s.next(), Some(4));
    assert_eq!(s.wrote(IoOutcome::Done(6)), Retry::Proceed);
    assert_eq!(s.next(), None);
}

#[test]
fn send_all_reports_write_zero_and_os_errors() {
    let mut s = SendAll::new(3);
    assert_eq!(s.wrote(IoOutcome::Done(0)), Retry::Failed(NetError::WriteZero));
    assert_eq!(s.next(), Some(0));
    assert_eq!(s.wrote(IoOutcome::Failed), Retry::Failed(NetError::Os));
    assert_eq!(s.wrote(IoOutcome::Done(usize::MAX)), Retry::Proceed);
    assert_eq!(s.next(), None);
    assert_eq!(SendAll::new(0).next(), None);
}

#[test]
fn echo_sends_back_what_was_received() {
    let sent = b"hello".to_vec();
    let mut wire = vec![0u8; RECV_CHUNK];
    wire[..sent.len()].copy_from_slice(&sent);
    let chunk = match recv_step(IoOutcome::Done(sent.len()), wire) {
        RecvStep::Chunk(c) => c,
        _ => panic!("expected a chunk"),
    };
    let mut reply = SendAll::new(chunk.len());
    let mut echoed = Vec::new();
    while let Some(from) = reply.next() {
        let n = 2.min(chunk.len() - from);
        echoed.extend_from_slice(&chunk[from..from + n]);
        assert_eq!(reply.wrote(IoOutcome::Done(n)), Retry::Proceed);
    }
    assert_eq!(echoed, sent);
}

#[test]
fn watcher_asks_for_deregistration_once() {
    let mut w = IoWatcher::new(4);
    assert_eq!(w.fd(), 4);
    assert_eq!(w.release(), Some(4));
    assert_eq!(w.stop(), 4);
    assert_eq!(w.release(), None);
    assert_eq!(w.fd(), 4);
}

#[test]
fn mailbox_keeps_submission_order() {
    let mut m = Mailbox::new();
    assert_eq!(m.post("a"), Ok(()));
    assert_eq!(m.post("b"), Ok(()));
    assert_eq!(m.post("c"), Ok(()));
    assert_eq!(m.len(), 3);
    let drained: Vec<_> = m.drain().into_iter().collect();
    assert_eq!(drained, vec!["a", "b", "c"]);
    assert_eq!(m.len(), 0);
    assert!(m.drain().is_empty());
}

#[test]
fn mailbox_rejects_posts_once_closed() {
    let mut m = Mailbox::new();
    assert_eq!(m.post("a"), Ok(()));
    assert!(!m.is_closed());
    m.close();
    assert!(m.is_closed());
    assert_eq!(m.post("b"), Err(PostError::Closed));
    assert_eq!(m.len(), 0);
}

#[test]
fn wake_pipe_is_drained_until_it_gives_nothing() {
    assert_eq!(pipe_interest(), Interest::Readable);
    assert_eq!(WAKE_BYTE, 1);
    assert_eq!(DRAIN_CHUNK, 128);
    let readable = Ready { readable: true, writable: false, error: false, hup: false };
    let hup_only = Ready { readable: false, writable: false, error: false, hup: true };
    assert!(starts_drain(readable));
    assert!(!starts_drain(hup_only));
    assert!(keeps_draining(ReadOutcome::Read(128)));
    assert!(keeps_draining(ReadOutcome::Read(1)));
    assert!(!keeps_draining(ReadOutcome::Read(0)));
    assert!(!keeps_draining(ReadOutcome::WouldBlock));
    assert!(!keeps_draining(ReadOutcome::Failed));
}
