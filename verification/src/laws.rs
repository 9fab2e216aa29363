//! What callers can rely on, call by call.
//!
//! Each law speaks of what goes into a call and of what comes out of it, or of how two calls
//! relate: in numbers, in the fields of the objects, and in the order of the wakers.

pub mod future;
pub mod owned;
pub mod reactor;
pub mod read;
pub mod ring;
pub mod waker_queue;
