//! The executor side: tasks, join handles, and the state behind the
//! futures that wait on the reactor.

pub mod async_fd;
pub mod context;
pub mod executor;
pub mod join;
pub mod net;
pub mod queue;
pub mod task_group;
pub mod time;
pub mod types;

pub use async_fd::AsyncFd;
pub use context::{current_executor, spawn};
pub use executor::{Executor, Task};
pub use join::{join_all, select2, select_any, JoinError, JoinHandle, Select2, SelectAny};
pub use queue::AsyncQueue;
pub use task_group::TaskGroup;
pub use time::{sleep, Sleep};
pub use types::Poll;
