//! Verified core of a small asynchronous runtime: the decisions that the
//! executor, its task bookkeeping, its network poller and its synchronisation
//! primitives make, each stated over a mathematical model and proved.
pub mod poll;
pub mod fifo;
pub mod ring_buffer;
pub mod task;
pub mod task_queue;
pub mod poller;
pub mod state;
pub mod join;
pub mod executor;
pub mod mutex;
pub mod mpsc;
pub mod io;
