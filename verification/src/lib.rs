//! A fixed-size worker pool.
//!
//! A pool owns the sending side of one job queue and a fixed set of workers
//! that share its receiving side. Jobs are submitted with
//! [`ThreadPool::execute`]; [`ThreadPool::shutdown`] broadcasts one stop
//! signal per worker and then hands out the workers' handles, in order, to
//! be waited for.
//!
//! The library holds the decisions: which message is sent when, what a
//! worker does with each message, and in which order a pool is taken down.
//! Starting a thread, blocking on the queue and waiting for a thread are left
//! to the caller. The module [`protocol`] states and proves what the queue
//! and the workers guarantee together.

pub mod message;
pub mod pool;
pub mod protocol;
pub mod queue;
pub mod worker;

pub use message::Message;
pub use pool::{Broadcast, Disconnected, ThreadPool};
pub use worker::{Step, Worker, WorkerState};
