# vilya

The core of an io_uring runtime.

An operation that is handed to the kernel needs its state, and what the kernel works on, to stay
where they are until the kernel has answered, whatever becomes of the future that started it. Here
both live in a reference-counted object; the kernel holds one of the handles, as the user data of
the submission. An object has a box of its own, and so does not move until it is freed: this is by
the construction of the heap, and the tests look at it; it is not among what is proved. Reads into
borrowed buffers are the exception: their state is kept in this way, their buffer is the caller's.

* `src/owned.rs`: the heap, its objects and the handles to them.
* `src/future.rs`: completion states, and the future of any operation that implements `UringOp`.
* `src/read.rs`: reads into borrowed buffers.
* `src/reactor.rs`: what happens when the kernel answers.
* `src/waker_queue.rs`: tasks that wait for room in a submission queue.
* `src/protocol.rs`: the life of an operation as a transition system, with its invariant.
* `src/runtime.rs`: how the ring of a thread comes into being.
* `src/sys.rs`, `src/mmap.rs`, `src/sqe.rs`: system calls, mappings and submission queue entries.
* `src/casket.rs`: values that know whether they have to be dropped.

The library is verified with Verus. It is written for one owner at a time: whoever borrows a heap
or a queue mutably holds the lock on it. `app/` holds what surrounds it: the locks that threads
share it through, the rings, the system calls, the wakers and the `Future` implementations.
