//! Operations that are handed to the kernel, and the futures that wait for them.

use vstd::prelude::*;

use crate::owned::{reclaimed, released, retained, KernelHeap, KernelOwned, KernelOwnedOnHeap};
use crate::sqe::Sqe;
use crate::sys::OsError;
use crate::waker_queue::WakerQueue;

verus! {

/// How far an operation has come.
///
/// A waker is named by the number under which the executor keeps it.
#[derive(Clone, Copy, Debug, PartialEq, Eq, Structural)]
pub enum CompletionState {
    /// Not handed to the kernel yet.
    Unsubmitted,
    /// In the kernel's hands; `waker` is to be woken when the kernel answers.
    InProgress { waker: u64 },
    /// The kernel has answered with `result`.
    Completed { result: i32 },
}

/// What a future asks of the executor after a poll.
pub enum PollStep<O> {
    /// The submission queue is full: nothing to do until the waker is woken.
    Parked,
    /// `entry` is to be put on the submission queue; the waker is woken when the kernel answers.
    Submit { entry: Sqe },
    /// The operation is over.
    Ready { output: Result<O, OsError> },
}

/// How far a poll brings an operation, before the operation's own code has a say.
pub enum Advance<D> {
    /// The submission queue is full: nothing to do until the waker is woken.
    Parked,
    /// The operation is to be submitted as `user_data`.
    Submitted { user_data: u64 },
    /// The operation is over: the data, and the kernel's answer, if that is no error.
    Answered { answer: Result<(D, i32), OsError> },
}

/// The objects after the operation at `addr` was handed to the kernel: the kernel has a handle
/// of its own, and `waker` waits for the answer.
pub open spec fn submitted<T>(
    objects: Map<u64, KernelOwnedOnHeap<T>>,
    addr: u64,
    waker: u64,
) -> Map<u64, KernelOwnedOnHeap<T>> {
    let counted = retained(objects, addr);
    counted.insert(addr, counted[addr].in_state(CompletionState::InProgress { waker }))
}

/// The objects after the future of the operation at `addr` was polled for a task that `waker`
/// wakes. `takes_data` says whether the future moves the data out when it finds an answer that is
/// no error.
pub open spec fn polled<T>(
    objects: Map<u64, KernelOwnedOnHeap<T>>,
    addr: u64,
    ring_full: bool,
    waker: u64,
    takes_data: bool,
) -> Map<u64, KernelOwnedOnHeap<T>> {
    match objects[addr].header.state {
        CompletionState::Unsubmitted if !ring_full => submitted(objects, addr, waker),
        CompletionState::Completed { result } if result >= 0 && takes_data => objects.insert(
            addr,
            objects[addr].emptied(),
        ),
        _ => objects,
    }
}

/// A handle to the state of an operation and to the data that it works on.
pub struct CompletionRef<T> {
    inner: KernelOwned<T>,
}

impl<T> CompletionRef<T> {
    /// The address of the object.
    pub closed spec fn addr(self) -> u64 {
        self.inner.addr()
    }

    /// The state of an operation that works on `data` and was not submitted yet.
    pub fn new(heap: &mut KernelHeap<T>, data: T) -> (completion: Self)
        requires
            old(heap).wf(),
        ensures
            final(heap).wf(),
            completion.addr() != 0,
            !old(heap)@.dom().contains(completion.addr()),
            final(heap)@ == old(heap)@.insert(completion.addr(), KernelOwnedOnHeap::fresh(data)),
    {
        CompletionRef { inner: KernelOwned::new(heap, data) }
    }

    /// Makes another handle and turns it into user data for the kernel.
    pub fn place_clone_in_kernel<D>(&self, heap: &mut KernelHeap<D>) -> (user_data: u64)
        requires
            old(heap).wf(),
            old(heap)@.dom().contains(self.addr()),
        ensures
            final(heap).wf(),
            user_data == self.addr(),
            final(heap)@ == retained(old(heap)@, self.addr()),
    {
        self.inner.place_in_kernel(heap)
    }

    /// The object, if it is on this heap.
    pub fn object<'a, D>(&self, heap: &'a KernelHeap<D>) -> (object: Option<
        &'a KernelOwnedOnHeap<D>,
    >)
        ensures
            object == (if heap@.dom().contains(self.addr()) {
                Some(&heap@[self.addr()])
            } else {
                None
            }),
    {
        self.inner.object(heap)
    }

    /// Locks the completion state, if nobody else has locked it. Whoever has borrowed the heap is
    /// the only one who can, so the lock is never found taken.
    pub fn try_lock<'a, D>(&self, heap: &'a mut KernelHeap<D>) -> (state: Option<
        &'a mut CompletionState,
    >)
        requires
            old(heap).wf(),
            old(heap)@.dom().contains(self.addr()),
        ensures
            final(heap).wf(),
            state matches Some(state) && {
                &&& *state == old(heap)@[self.addr()].header.state
                &&& final(heap)@ == old(heap)@.insert(
                    self.addr(),
                    old(heap)@[self.addr()].in_state(*final(state)),
                )
            },
    {
        Some(self.inner.state_mut(heap))
    }

    /// Locks the completion state.
    pub fn lock<'a, D>(&self, heap: &'a mut KernelHeap<D>) -> (state: &'a mut CompletionState)
        requires
            old(heap).wf(),
            old(heap)@.dom().contains(self.addr()),
        ensures
            *state == old(heap)@[self.addr()].header.state,
            final(heap).wf(),
            final(heap)@ == old(heap)@.insert(
                self.addr(),
                old(heap)@[self.addr()].in_state(*final(state)),
            ),
    {
        self.inner.state_mut(heap)
    }

    /// Moves the data out of the object, whatever its type.
    pub fn data<D>(&self, heap: &mut KernelHeap<D>) -> (data: D)
        requires
            old(heap).wf(),
            old(heap)@.dom().contains(self.addr()),
            old(heap)@[self.addr()].data is Some,
        ensures
            final(heap).wf(),
            Some(data) == old(heap)@[self.addr()].data,
            final(heap)@ == old(heap)@.insert(self.addr(), old(heap)@[self.addr()].emptied()),
    {
        self.inner.take_data(heap).unwrap()
    }

    /// The data, where it is, whatever its type.
    pub fn data_ref<'a, D>(&self, heap: &'a KernelHeap<D>) -> (data: &'a D)
        requires
            heap@.dom().contains(self.addr()),
            heap@[self.addr()].data is Some,
        ensures
            Some(*data) == heap@[self.addr()].data,
    {
        self.inner.object(heap).unwrap().data.as_ref().unwrap()
    }

    /// Gives the handle back. The last handle takes the object, and its data, with it.
    pub fn release<D>(self, heap: &mut KernelHeap<D>)
        requires
            old(heap).wf(),
            old(heap)@.dom().contains(self.addr()),
        ensures
            final(heap).wf(),
            final(heap)@ == released(old(heap)@, self.addr()),
    {
        self.inner.release(heap);
    }

    /// Gives the handle back. The last handle takes the object off the heap, and it is returned.
    pub fn reclaim<D>(self, heap: &mut KernelHeap<D>) -> (object: Option<KernelOwnedOnHeap<D>>)
        requires
            old(heap).wf(),
            old(heap)@.dom().contains(self.addr()),
        ensures
            final(heap).wf(),
            final(heap)@ == released(old(heap)@, self.addr()),
            object == reclaimed(old(heap)@, self.addr()),
    {
        self.inner.reclaim(heap)
    }
}

impl CompletionRef<()> {
    /// Turns user data back into the handle that it was made from.
    pub fn from_user_data(user_data: u64) -> (completion: Self)
        requires
            user_data != 0,
        ensures
            completion.addr() == user_data,
    {
        CompletionRef { inner: KernelOwned::from_user_data(user_data) }
    }
}

/// An operation that can be handed to the kernel.
pub trait UringOp {
    /// What the kernel works on while the operation is in progress. It stays where it is in memory
    /// for as long as that.
    type Storage;

    /// What the operation yields.
    type Output;

    /// Moves what the kernel works on out of the operation.
    fn to_storage(&mut self) -> Self::Storage;

    /// Fills in the entry that asks the kernel for the operation.
    fn build_entry(&self, entry: &mut Sqe, storage: &Self::Storage, user_data: u64);

    /// What the operation yields, given the kernel's answer.
    fn to_output(&self, storage: Self::Storage, result: i32) -> Self::Output;
}

/// An operation on its way to the kernel and back.
pub struct UringFuture<T: UringOp> {
    op: T,
    completion_ref: CompletionRef<()>,
}

impl<T: UringOp> UringFuture<T> {
    /// The operation.
    pub closed spec fn op(self) -> T {
        self.op
    }

    /// The address of the operation's state.
    pub closed spec fn addr(self) -> u64 {
        self.completion_ref.addr()
    }

    /// A future for `op`. What [`UringOp::to_storage`] moves out of the operation is put on the
    /// heap.
    pub fn new(heap: &mut KernelHeap<T::Storage>, op: T) -> (future: Self)
        requires
            old(heap).wf(),
        ensures
            final(heap).wf(),
            future.addr() != 0,
            !old(heap)@.dom().contains(future.addr()),
            final(heap)@.dom().contains(future.addr()),
            final(heap)@[future.addr()].data is Some,
            final(heap)@ == old(heap)@.insert(
                future.addr(),
                KernelOwnedOnHeap::fresh(final(heap)@[future.addr()].data->0),
            ),
            exists|before: &mut T| #[trigger]
                call_ensures(
                    T::to_storage,
                    (before,),
                    final(heap)@[future.addr()].data->0,
                ) && *before == op && *final(before) == future.op(),
    {
        let mut op = op;
        let ghost given = op;
        let storage = op.to_storage();
        assert(exists|before: &mut T| #[trigger]
            call_ensures(T::to_storage, (before,), storage) && *before == given && *final(before)
                == op);
        let future = Self::with_data(heap, op, storage);
        assert(heap@[future.addr()].data == Some(storage));
        future
    }

    /// A future for `op`, from which [`UringOp::to_storage`] has moved the storage; `data`, which is
    /// put on the heap, stands for that. This is for heaps that operations of several kinds share.
    pub fn with_data<D>(heap: &mut KernelHeap<D>, op: T, data: D) -> (future: Self)
        requires
            old(heap).wf(),
        ensures
            final(heap).wf(),
            future.op() == op,
            future.addr() != 0,
            !old(heap)@.dom().contains(future.addr()),
            final(heap)@ == old(heap)@.insert(future.addr(), KernelOwnedOnHeap::fresh(data)),
    {
        let owned = KernelOwned::new(heap, data);
        UringFuture { op, completion_ref: CompletionRef::from_user_data(owned.to_user_data()) }
    }

    /// The object that holds the operation's state, if it is on this heap.
    pub fn object<'a, D>(&self, heap: &'a KernelHeap<D>) -> (object: Option<
        &'a KernelOwnedOnHeap<D>,
    >)
        ensures
            object == (if heap@.dom().contains(self.addr()) {
                Some(&heap@[self.addr()])
            } else {
                None
            }),
    {
        self.completion_ref.object(heap)
    }

    /// Moves the operation on, for a task that `waker` wakes.
    ///
    /// To be here, the task was woken by its waker, or this is the first poll. A task is not woken
    /// while its operation is in progress.
    ///
    /// An operation that was not submitted yet is submitted, or, where `ring_full` says that the
    /// submission queue has no room, has its waker put on the waiting queue. One that the kernel
    /// has answered is over: a negative answer is an error number, any other is made into the
    /// operation's output, together with the data.
    pub fn poll(
        &self,
        heap: &mut KernelHeap<T::Storage>,
        waiting: &mut WakerQueue,
        ring_full: bool,
        waker: u64,
    ) -> (step: PollStep<T::Output>)
        requires
            old(heap).wf(),
            old(heap)@.dom().contains(self.addr()),
            match old(heap)@[self.addr()].header.state {
                CompletionState::Unsubmitted => ring_full || old(heap)@[self.addr()].data is Some,
                CompletionState::InProgress { .. } => false,
                CompletionState::Completed { result } => result != i32::MIN && (result >= 0 ==> old(
                    heap,
                )@[self.addr()].data is Some),
            },
        ensures
            final(heap).wf(),
            final(heap)@ == polled(old(heap)@, self.addr(), ring_full, waker, true),
            match old(heap)@[self.addr()].header.state {
                CompletionState::Unsubmitted => if ring_full {
                    &&& step is Parked
                    &&& final(waiting)@ == old(waiting)@.push(waker)
                } else {
                    &&& step is Submit
                    &&& exists|entry: &mut Sqe| #[trigger]
                        call_ensures(
                            T::build_entry,
                            (&self.op(), entry, &old(heap)@[self.addr()].data->0, self.addr()),
                            (),
                        ) && *entry == Sqe::zero() && *final(entry) == step->entry
                    &&& final(waiting)@ == old(waiting)@
                },
                CompletionState::InProgress { .. } => false,
                CompletionState::Completed { result } => {
                    &&& step is Ready
                    &&& final(waiting)@ == old(waiting)@
                    &&& if result < 0 {
                        step->output == Err::<T::Output, OsError>(
                            OsError { code: (-result) as i32 },
                        )
                    } else {
                        &&& step->output is Ok
                        &&& call_ensures(
                            T::to_output,
                            (&self.op(), old(heap)@[self.addr()].data->0, result),
                            step->output->Ok_0,
                        )
                    }
                },
            },
    {
        match self.advance(heap, waiting, ring_full, waker) {
            Advance::Parked => PollStep::Parked,
            Advance::Submitted { user_data } => {
                let entry = self.entry(self.completion_ref.data_ref(heap), user_data);
                PollStep::Submit { entry }
            },
            Advance::Answered { answer } => match answer {
                Ok((storage, result)) => PollStep::Ready {
                    output: Ok(self.output(storage, result)),
                },
                Err(error) => PollStep::Ready { output: Err(error) },
            },
        }
    }

    /// The part of [`UringFuture::poll`] that needs the heap, and none of the operation's own code.
    /// [`UringFuture::entry`] and [`UringFuture::output`] are the rest.
    pub fn advance<D>(
        &self,
        heap: &mut KernelHeap<D>,
        waiting: &mut WakerQueue,
        ring_full: bool,
        waker: u64,
    ) -> (step: Advance<D>)
        requires
            old(heap).wf(),
            old(heap)@.dom().contains(self.addr()),
            match old(heap)@[self.addr()].header.state {
                CompletionState::Unsubmitted => true,
                CompletionState::InProgress { .. } => false,
                CompletionState::Completed { result } => result != i32::MIN && (result >= 0 ==> old(
                    heap,
                )@[self.addr()].data is Some),
            },
        ensures
            final(heap).wf(),
            final(heap)@ == polled(old(heap)@, self.addr(), ring_full, waker, true),
            match old(heap)@[self.addr()].header.state {
                CompletionState::Unsubmitted => if ring_full {
                    &&& step is Parked
                    &&& final(waiting)@ == old(waiting)@.push(waker)
                } else {
                    &&& step == (Advance::<D>::Submitted { user_data: self.addr() })
                    &&& final(waiting)@ == old(waiting)@
                },
                CompletionState::InProgress { .. } => false,
                CompletionState::Completed { result } => {
                    &&& step == (Advance::Answered {
                        answer: if result < 0 {
                            Err::<(D, i32), OsError>(OsError { code: (-result) as i32 })
                        } else {
                            Ok((old(heap)@[self.addr()].data->0, result))
                        },
                    })
                    &&& final(waiting)@ == old(waiting)@
                },
            },
    {
        let state: CompletionState = *self.completion_ref.lock(heap);
        assert(heap@ =~= old(heap)@);
        match state {
            CompletionState::Unsubmitted => {
                if ring_full {
                    waiting.push(waker);
                    return Advance::Parked;
                }
                let user_data = self.completion_ref.place_clone_in_kernel(heap);
                *self.completion_ref.lock(heap) = CompletionState::InProgress { waker };
                assert(heap@ =~= submitted(old(heap)@, self.addr(), waker));
                Advance::Submitted { user_data }
            },
            CompletionState::InProgress { .. } => vstd::pervasive::unreached(),
            CompletionState::Completed { result } => {
                if result < 0 {
                    return Advance::Answered { answer: Err(OsError { code: -result }) };
                }
                let data = self.completion_ref.data(heap);
                Advance::Answered { answer: Ok((data, result)) }
            },
        }
    }

    /// The entry that [`UringOp::build_entry`] makes of an empty one.
    pub fn entry(&self, storage: &T::Storage, user_data: u64) -> (entry: Sqe)
        ensures
            exists|blank: &mut Sqe| #[trigger]
                call_ensures(T::build_entry, (&self.op(), blank, storage, user_data), ()) && *blank
                    == Sqe::zero() && *final(blank) == entry,
    {
        let mut entry = Sqe::zeroed();
        self.op.build_entry(&mut entry, storage, user_data);
        assert(exists|blank: &mut Sqe| #[trigger]
            call_ensures(T::build_entry, (&self.op(), blank, storage, user_data), ()) && *blank
                == Sqe::zero() && *final(blank) == entry);
        entry
    }

    /// What [`UringOp::to_output`] makes of the kernel's answer.
    pub fn output(&self, storage: T::Storage, result: i32) -> (output: T::Output)
        ensures
            call_ensures(T::to_output, (&self.op(), storage, result), output),
    {
        self.op.to_output(storage, result)
    }

    /// Ends the future. The operation's state lives on as long as the kernel has a handle to it.
    pub fn release<D>(self, heap: &mut KernelHeap<D>)
        requires
            old(heap).wf(),
            old(heap)@.dom().contains(self.addr()),
        ensures
            final(heap).wf(),
            final(heap)@ == released(old(heap)@, self.addr()),
    {
        self.completion_ref.release(heap);
    }

    /// Ends the future, and hands out what it had: the operation, and the operation's state, where
    /// the kernel has no handle to that.
    pub fn reclaim<D>(self, heap: &mut KernelHeap<D>) -> (parts: (T, Option<KernelOwnedOnHeap<D>>))
        requires
            old(heap).wf(),
            old(heap)@.dom().contains(self.addr()),
        ensures
            final(heap).wf(),
            final(heap)@ == released(old(heap)@, self.addr()),
            parts.0 == self.op(),
            parts.1 == reclaimed(old(heap)@, self.addr()),
    {
        let object = self.completion_ref.reclaim(heap);
        (self.op, object)
    }
}

} // verus!
