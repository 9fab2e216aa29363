//! The core of an io_uring runtime: reference-counted operation state that is shared with the
//! kernel, the futures that submit operations, and the queues of tasks that wait for them.

pub mod casket;
pub mod future;
pub mod laws;
pub mod mmap;
pub mod owned;
pub mod protocol;
pub mod reactor;
pub mod read;
pub mod runtime;
pub mod sqe;
pub mod sys;
pub mod waker_queue;
