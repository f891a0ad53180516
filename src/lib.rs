//! A fixed-size worker pool: a job channel that hands each submitted job to
//! exactly one worker, the decision each worker makes on what it received, and
//! the pool's own bookkeeping of its workers from construction to teardown.
//!
//! The threads, the lock around the channel's consuming end and the wake-ups
//! belong to the caller; everything they decide is here, as is the routing
//! of the small server that submits its connections to the pool.
pub mod channel;
pub mod worker;
pub mod pool;
pub mod request;

pub use channel::{ChannelView, JobChannel, Recv};
pub use worker::{next_step, Worker, WorkerStep};
pub use pool::ThreadPool;
pub use request::{route, Route};
