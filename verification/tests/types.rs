use eventloop_async_research::runtime::types::Interest;
use eventloop_async_research::{backend_from_args, default_backend, BackendKind, Ready};

#[test]
fn default_backend_follows_target() {
    assert_eq!(default_backend(true), BackendKind::Epoll);
    assert_eq!(default_backend(false), BackendKind::Poll);
}

#[test]
fn ready_default_has_no_bit() {
    let r = Ready::default();
    assert!(!r.readable && !r.writable && !r.error && !r.hup);
}

#[test]
fn backend_from_args_reads_the_word() {
    assert_eq!(backend_from_args(Some("poll"), true), BackendKind::Poll);
    assert_eq!(backend_from_args(Some("epoll"), false), BackendKind::Epoll);
}

#[test]
fn backend_from_args_falls_back_to_default() {
    assert_eq!(backend_from_args(None, true), BackendKind::Epoll);
    assert_eq!(backend_from_args(None, false), BackendKind::Poll);
    assert_eq!(backend_from_args(Some("kqueue"), true), BackendKind::Epoll);
    assert_eq!(backend_from_args(Some("kqueue"), false), BackendKind::Poll);
    assert_eq!(backend_from_args(Some(""), false), BackendKind::Poll);
    assert_eq!(backend_from_args(Some("pol"), true), BackendKind::Epoll);
    assert_eq!(backend_from_args(Some("polls"), true), BackendKind::Epoll);
    assert_eq!(backend_from_args(Some("POLL"), true), BackendKind::Epoll);
}

#[test]
fn interest_values_are_distinct() {
    assert_ne!(Interest::Readable, Interest::Writable);
    assert_ne!(Interest::Readable, Interest::ReadWrite);
    assert_ne!(Interest::Writable, Interest::ReadWrite);
}
