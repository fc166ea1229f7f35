//! The reactor: readiness types, timers, backends and the dispatch cycle.

pub mod backend;
pub mod epoll;
pub mod event_loop;
pub mod io_watcher;
pub mod mailbox;
pub mod poll;
pub mod timer;
pub mod types;
pub mod waker;

pub use backend::Backend;
pub use epoll::EpollBackend;
pub use event_loop::EventLoop;
pub use io_watcher::IoWatcher;
pub use mailbox::Mailbox;
pub use poll::PollBackend;
pub use types::{BackendKind, Interest, Ready};
