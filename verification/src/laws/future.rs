//! What callers can rely on of operations and their futures.

use vstd::prelude::*;

use crate::future::{Advance, CompletionRef, CompletionState, PollStep, UringFuture, UringOp};
use crate::owned::{KernelHeap, KernelOwnedOnHeap};
use crate::protocol::{Event, System};
use crate::reactor::set_result;
use crate::sqe::Sqe;
use crate::waker_queue::WakerQueue;

verus! {

/// A poll that finds room hands the operation to the kernel, under its own name, on behalf of the
/// very waker that the poll brought: the operation is in progress with that waker and has one
/// handle more. Its data, every other object and the waiting queue stay what they were.
pub proof fn law_poll_with_room_submits<T: UringOp, D>(
    future: UringFuture<T>,
    waker: u64,
    step: Advance<D>,
)
    ensures
        forall|heap: &mut KernelHeap<D>, waiting: &mut WakerQueue| #[trigger]
            call_ensures(
                UringFuture::<T>::advance::<D>,
                (&future, heap, waiting, false, waker),
                step,
            ) && heap@.dom().contains(future.addr()) && heap@[future.addr()].header.state
                == CompletionState::Unsubmitted ==> {
                let before = heap@[future.addr()];
                let after = final(heap)@[future.addr()];
                &&& step is Submitted && step->user_data == future.addr()
                &&& after.header.state == (CompletionState::InProgress { waker })
                &&& before.header.ref_count < usize::MAX ==> after.header.ref_count
                    == before.header.ref_count + 1
                &&& before.header.ref_count == usize::MAX ==> after.header.ref_count == 0
                &&& after.data == before.data
                &&& final(heap)@.dom() == heap@.dom()
                &&& final(heap)@.remove(future.addr()) == heap@.remove(future.addr())
                &&& final(waiting)@ == waiting@
            },
{
}

/// A poll that finds no room leaves every object what it was, so that the next poll finds the
/// operation as this one did. Its waker is the last of those that wait for room.
pub proof fn law_poll_without_room_only_waits<T: UringOp, D>(
    future: UringFuture<T>,
    waker: u64,
    step: Advance<D>,
)
    ensures
        forall|heap: &mut KernelHeap<D>, waiting: &mut WakerQueue| #[trigger]
            call_ensures(
                UringFuture::<T>::advance::<D>,
                (&future, heap, waiting, true, waker),
                step,
            ) && heap@[future.addr()].header.state == CompletionState::Unsubmitted ==> {
                &&& step is Parked
                &&& final(heap)@ == heap@
                &&& final(waiting)@.len() == waiting@.len() + 1
                &&& final(waiting)@.last() == waker
                &&& final(waiting)@.drop_last() == waiting@
            },
{
}

/// A poll that finds an answer ends the operation: with the data, which is moved out, and the
/// answer itself, or, for a negative answer, with the error whose number is its absolute value,
/// and with every object as it was. Nobody starts to wait.
pub proof fn law_poll_finds_the_answer<T: UringOp, D>(
    future: UringFuture<T>,
    ring_full: bool,
    waker: u64,
    step: Advance<D>,
    result: i32,
)
    ensures
        forall|heap: &mut KernelHeap<D>, waiting: &mut WakerQueue| #[trigger]
            call_ensures(
                UringFuture::<T>::advance::<D>,
                (&future, heap, waiting, ring_full, waker),
                step,
            ) && heap@.dom().contains(future.addr()) && result != i32::MIN && heap@[future.addr()]
                .header.state == (CompletionState::Completed { result }) ==> {
                let before = heap@[future.addr()];
                let after = final(heap)@[future.addr()];
                &&& step is Answered
                &&& result < 0 ==> step->answer is Err && step->answer->Err_0.code == -result
                    && final(heap)@ == heap@
                &&& result >= 0 ==> step->answer is Ok && step->answer->Ok_0.1 == result
                    && step->answer->Ok_0.0 == before.data->0 && after.data is None
                &&& after.header.state == before.header.state
                &&& after.header.ref_count == before.header.ref_count
                &&& final(heap)@.dom() == heap@.dom()
                &&& final(heap)@.remove(future.addr()) == heap@.remove(future.addr())
                &&& final(waiting)@ == waiting@
            },
{
}

/// The same three things of a poll that runs the operation's own code as well.
pub proof fn law_full_poll_moves_the_state_alike<T: UringOp>(
    future: UringFuture<T>,
    ring_full: bool,
    waker: u64,
    step: PollStep<T::Output>,
)
    ensures
        forall|heap: &mut KernelHeap<T::Storage>, waiting: &mut WakerQueue| #[trigger]
            call_ensures(
                UringFuture::<T>::poll,
                (&future, heap, waiting, ring_full, waker),
                step,
            ) && heap@.dom().contains(future.addr()) ==> {
                let before = heap@[future.addr()];
                let after = final(heap)@[future.addr()];
                &&& final(heap)@.dom() == heap@.dom()
                &&& final(heap)@.remove(future.addr()) == heap@.remove(future.addr())
                &&& before.header.state == CompletionState::Unsubmitted && ring_full ==> {
                    &&& step is Parked
                    &&& final(heap)@ == heap@
                    &&& final(waiting)@.len() == waiting@.len() + 1
                    &&& final(waiting)@.last() == waker
                    &&& final(waiting)@.drop_last() == waiting@
                }
                &&& before.header.state == CompletionState::Unsubmitted && !ring_full ==> {
                    &&& step is Submit
                    &&& after.header.state == (CompletionState::InProgress { waker })
                    &&& before.header.ref_count < usize::MAX ==> after.header.ref_count
                        == before.header.ref_count + 1
                    &&& before.header.ref_count == usize::MAX ==> after.header.ref_count == 0
                    &&& after.data == before.data
                    &&& final(waiting)@ == waiting@
                }
                &&& before.header.state matches CompletionState::Completed { result } ==> result
                    != i32::MIN ==> {
                    &&& step is Ready
                    &&& step->output is Ok <==> result >= 0
                    &&& result < 0 ==> step->output->Err_0.code == -result && final(heap)@ == heap@
                    &&& result >= 0 ==> after.data is None
                    &&& after.header.state == before.header.state
                    &&& after.header.ref_count == before.header.ref_count
                    &&& final(waiting)@ == waiting@
                }
            },
{
}

/// What the entry of an operation is filled in from has every field at zero, and it is filled in
/// for the operation's own data and name.
pub proof fn law_entries_are_built_from_nothing<T: UringOp>(
    future: UringFuture<T>,
    waker: u64,
    step: PollStep<T::Output>,
    storage: T::Storage,
    user_data: u64,
    entry: Sqe,
)
    ensures
        forall|heap: &mut KernelHeap<T::Storage>, waiting: &mut WakerQueue| #[trigger]
            call_ensures(UringFuture::<T>::poll, (&future, heap, waiting, false, waker), step)
                && heap@[future.addr()].header.state == CompletionState::Unsubmitted ==> exists|
                blank: &mut Sqe,
            | #[trigger]
                call_ensures(
                    T::build_entry,
                    (&future.op(), blank, &heap@[future.addr()].data->0, future.addr()),
                    (),
                ) && *blank == (Sqe {
                    opcode: 0,
                    flags: 0,
                    ioprio: 0,
                    fd: 0,
                    off: 0,
                    addr: 0,
                    len: 0,
                    op_flags: 0,
                    user_data: 0,
                    buf_index: 0,
                    personality: 0,
                    splice_fd_in: 0,
                    addr3: 0,
                    pad: 0,
                }) && *final(blank) == step->entry,
        call_ensures(UringFuture::<T>::entry, (&future, &storage, user_data), entry) ==> exists|
            blank: &mut Sqe,
        | #[trigger]
            call_ensures(T::build_entry, (&future.op(), blank, &storage, user_data), ()) && *blank
                == (Sqe {
                opcode: 0,
                flags: 0,
                ioprio: 0,
                fd: 0,
                off: 0,
                addr: 0,
                len: 0,
                op_flags: 0,
                user_data: 0,
                buf_index: 0,
                personality: 0,
                splice_fd_in: 0,
                addr3: 0,
                pad: 0,
            }) && *final(blank) == entry,
{
}

/// What an operation yields is made of its own data and of the very answer.
pub proof fn law_output_is_made_of_the_answer<T: UringOp>(
    future: UringFuture<T>,
    ring_full: bool,
    waker: u64,
    step: PollStep<T::Output>,
    storage: T::Storage,
    answer: i32,
    output: T::Output,
)
    ensures
        forall|heap: &mut KernelHeap<T::Storage>, waiting: &mut WakerQueue| #[trigger]
            call_ensures(UringFuture::<T>::poll, (&future, heap, waiting, ring_full, waker), step)
                && answer >= 0 && heap@[future.addr()].header.state == (CompletionState::Completed {
                result: answer,
            }) ==> call_ensures(
                T::to_output,
                (&future.op(), heap@[future.addr()].data->0, answer),
                step->output->Ok_0,
            ),
        call_ensures(UringFuture::<T>::output, (&future, storage, answer), output) ==> call_ensures(
            T::to_output,
            (&future.op(), storage, answer),
            output,
        ),
{
}

/// Whoever polled is woken: the next answer to an operation that a poll has submitted returns the
/// waker that the poll brought, whatever the answer is, for either way to poll.
pub proof fn law_the_answer_wakes_who_polled<T: UringOp, D>(
    future: UringFuture<T>,
    waker: u64,
    step: Advance<D>,
    full_step: PollStep<T::Output>,
    result: i32,
    woken: u64,
)
    ensures
        forall|
            heap: &mut KernelHeap<D>,
            waiting: &mut WakerQueue,
            later: &mut KernelHeap<D>,
        |
            #![trigger
                call_ensures(
                    UringFuture::<T>::advance::<D>,
                    (&future, heap, waiting, false, waker),
                    step,
                ),
                call_ensures(set_result::<D>, (later, future.addr(), result), woken)
            ]
            call_ensures(
                UringFuture::<T>::advance::<D>,
                (&future, heap, waiting, false, waker),
                step,
            ) && heap@[future.addr()].header.state == CompletionState::Unsubmitted && later@
                == final(heap)@ && call_ensures(
                set_result::<D>,
                (later, future.addr(), result),
                woken,
            ) ==> woken == waker,
        forall|
            heap: &mut KernelHeap<T::Storage>,
            waiting: &mut WakerQueue,
            later: &mut KernelHeap<T::Storage>,
        |
            #![trigger
                call_ensures(
                    UringFuture::<T>::poll,
                    (&future, heap, waiting, false, waker),
                    full_step,
                ),
                call_ensures(set_result::<T::Storage>, (later, future.addr(), result), woken)
            ]
            call_ensures(
                UringFuture::<T>::poll,
                (&future, heap, waiting, false, waker),
                full_step,
            ) && heap@[future.addr()].header.state == CompletionState::Unsubmitted && later@
                == final(heap)@ && call_ensures(
                set_result::<T::Storage>,
                (later, future.addr(), result),
                woken,
            ) ==> woken == waker,
{
}

/// A poll that submits does to the objects what the submission of an operation does in the
/// [`System`] of operations, and a poll that parks does what parking one does.
pub proof fn law_polls_are_events<T: UringOp, D>(
    future: UringFuture<T>,
    ring_full: bool,
    waker: u64,
    step: Advance<D>,
    system: System<D>,
    op: u64,
)
    requires
        system.addrs[op] == future.addr(),
        system.object(op).header.state == CompletionState::Unsubmitted,
    ensures
        forall|heap: &mut KernelHeap<D>, waiting: &mut WakerQueue| #[trigger]
            call_ensures(
                UringFuture::<T>::advance::<D>,
                (&future, heap, waiting, ring_full, waker),
                step,
            ) && heap@ == system.objects && waiting@ == system.waiting ==> {
                let after = system.after(
                    if ring_full {
                        Event::Park { op, waker }
                    } else {
                        Event::Submit { op, waker }
                    },
                );
                final(heap)@ == after.objects && final(waiting)@ == after.waiting
            },
{
}

/// A poll can be made whenever the operation is not in progress, and its data is there when it is
/// needed.
pub proof fn law_polls_are_possible<T: UringOp, D>(future: UringFuture<T>, waker: u64, result: i32)
    ensures
        forall|heap: &mut KernelHeap<D>, waiting: &mut WakerQueue, ring_full: bool|
            heap.wf() && heap@.dom().contains(future.addr()) && heap@[future.addr()].header.state
                == CompletionState::Unsubmitted ==> #[trigger] call_requires(
                UringFuture::<T>::advance::<D>,
                (&future, heap, waiting, ring_full, waker),
            ),
        forall|heap: &mut KernelHeap<D>, waiting: &mut WakerQueue, ring_full: bool|
            heap.wf() && heap@.dom().contains(future.addr()) && heap@[future.addr()].header.state
                == (CompletionState::Completed { result }) && result != i32::MIN
                && heap@[future.addr()].data is Some ==> #[trigger] call_requires(
                UringFuture::<T>::advance::<D>,
                (&future, heap, waiting, ring_full, waker),
            ),
        forall|heap: &mut KernelHeap<T::Storage>, waiting: &mut WakerQueue, ring_full: bool|
            heap.wf() && heap@.dom().contains(future.addr()) && heap@[future.addr()].data is Some
                && (heap@[future.addr()].header.state == CompletionState::Unsubmitted || (
            heap@[future.addr()].header.state == (CompletionState::Completed { result }) && result
                != i32::MIN)) ==> #[trigger] call_requires(
                UringFuture::<T>::poll,
                (&future, heap, waiting, ring_full, waker),
            ),
{
}

/// A future starts out with an object of its own, which has one handle, was not submitted, and
/// holds the data that was given; no other object changes.
pub proof fn law_future_starts_out<T: UringOp, D>(op: T, data: D, future: UringFuture<T>)
    ensures
        forall|heap: &mut KernelHeap<D>| #[trigger]
            call_ensures(UringFuture::<T>::with_data::<D>, (heap, op, data), future) ==> {
                &&& future.op() == op
                &&& future.addr() != 0
                &&& !heap@.dom().contains(future.addr())
                &&& final(heap)@.dom() == heap@.dom().insert(future.addr())
                &&& final(heap)@.remove(future.addr()) == heap@
                &&& final(heap)@[future.addr()].header.ref_count == 1
                &&& final(heap)@[future.addr()].header.state == CompletionState::Unsubmitted
                &&& final(heap)@[future.addr()].data == Some(data)
            },
        forall|heap: &mut KernelHeap<T::Storage>| #[trigger]
            call_ensures(UringFuture::<T>::new, (heap, op), future) ==> {
                &&& future.addr() != 0
                &&& !heap@.dom().contains(future.addr())
                &&& final(heap)@.dom() == heap@.dom().insert(future.addr())
                &&& final(heap)@.remove(future.addr()) == heap@
                &&& final(heap)@[future.addr()].header.ref_count == 1
                &&& final(heap)@[future.addr()].header.state == CompletionState::Unsubmitted
                &&& final(heap)@[future.addr()].data is Some
                &&& exists|before: &mut T| #[trigger]
                    call_ensures(
                        T::to_storage,
                        (before,),
                        final(heap)@[future.addr()].data->0,
                    ) && *before == op && *final(before) == future.op()
            },
{
}

/// A future that ends gives up one handle, and hands out its operation and, where that handle was
/// the last, its object as it was; no other object changes.
pub proof fn law_future_ends<T: UringOp, D>(
    future: UringFuture<T>,
    parts: (T, Option<KernelOwnedOnHeap<D>>),
)
    ensures
        forall|heap: &mut KernelHeap<D>| #[trigger]
            call_ensures(UringFuture::<T>::reclaim::<D>, (future, heap), parts)
                && heap@.dom().contains(future.addr()) ==> {
                let before = heap@[future.addr()];
                let after = final(heap)@[future.addr()];
                &&& parts.0 == future.op()
                &&& parts.1 is Some <==> before.header.ref_count == 1
                &&& parts.1 is Some ==> parts.1->0 == before
                &&& final(heap)@.remove(future.addr()) == heap@.remove(future.addr())
                &&& final(heap)@.dom().contains(future.addr()) <==> before.header.ref_count != 1
                &&& before.header.ref_count != 1 ==> after.header.state == before.header.state
                    && after.data == before.data
                &&& before.header.ref_count > 1 ==> after.header.ref_count
                    == before.header.ref_count - 1
                &&& before.header.ref_count == 0 ==> after.header.ref_count == usize::MAX
            },
        forall|heap: &mut KernelHeap<D>| #[trigger]
            call_ensures(UringFuture::<T>::release::<D>, (future, heap), ())
                && heap@.dom().contains(future.addr()) ==> {
                let before = heap@[future.addr()];
                let after = final(heap)@[future.addr()];
                &&& final(heap)@.remove(future.addr()) == heap@.remove(future.addr())
                &&& final(heap)@.dom().contains(future.addr()) <==> before.header.ref_count != 1
                &&& before.header.ref_count != 1 ==> after.header.state == before.header.state
                    && after.data == before.data
                &&& before.header.ref_count > 1 ==> after.header.ref_count
                    == before.header.ref_count - 1
                &&& before.header.ref_count == 0 ==> after.header.ref_count == usize::MAX
            },
{
}

/// A future's object is the one at its address.
pub proof fn law_future_finds_its_object<T: UringOp, S, D>(
    future: UringFuture<T>,
    completion: CompletionRef<S>,
    heap: KernelHeap<D>,
)
    ensures
        forall|object: Option<&KernelOwnedOnHeap<D>>| #[trigger]
            call_ensures(UringFuture::<T>::object::<D>, (&future, &heap), object) ==> {
                &&& object is Some <==> heap@.dom().contains(future.addr())
                &&& object is Some ==> *(object->0) == heap@[future.addr()]
            },
        forall|object: Option<&KernelOwnedOnHeap<D>>| #[trigger]
            call_ensures(CompletionRef::<S>::object::<D>, (&completion, &heap), object) ==> {
                &&& object is Some <==> heap@.dom().contains(completion.addr())
                &&& object is Some ==> *(object->0) == heap@[completion.addr()]
            },
{
}

/// The state of an operation starts out with one handle, not submitted, with the data that was
/// given; no other object changes.
pub proof fn law_completion_starts_out<T>(data: T, completion: CompletionRef<T>)
    ensures
        forall|heap: &mut KernelHeap<T>| #[trigger]
            call_ensures(CompletionRef::<T>::new, (heap, data), completion) ==> {
                &&& completion.addr() != 0
                &&& !heap@.dom().contains(completion.addr())
                &&& final(heap)@.dom() == heap@.dom().insert(completion.addr())
                &&& final(heap)@.remove(completion.addr()) == heap@
                &&& final(heap)@[completion.addr()].header.ref_count == 1
                &&& final(heap)@[completion.addr()].header.state == CompletionState::Unsubmitted
                &&& final(heap)@[completion.addr()].data == Some(data)
            },
{
}

/// A lock gives access to the state of the operation and to nothing else, and is never found
/// taken.
pub proof fn law_lock_is_exact<T, D>(completion: CompletionRef<T>)
    ensures
        forall|heap: &mut KernelHeap<D>, state: &mut CompletionState| #[trigger]
            call_ensures(CompletionRef::<T>::lock::<D>, (&completion, heap), state)
                && heap@.dom().contains(completion.addr()) ==> {
                let before = heap@[completion.addr()];
                let after = final(heap)@[completion.addr()];
                &&& *state == before.header.state
                &&& after.header.state == *final(state)
                &&& after.header.ref_count == before.header.ref_count
                &&& after.data == before.data
                &&& final(heap)@.dom() == heap@.dom()
                &&& final(heap)@.remove(completion.addr()) == heap@.remove(completion.addr())
            },
        forall|heap: &mut KernelHeap<D>, taken: Option<&mut CompletionState>| #[trigger]
            call_ensures(CompletionRef::<T>::try_lock::<D>, (&completion, heap), taken)
                && heap@.dom().contains(completion.addr()) ==> {
                let before = heap@[completion.addr()];
                let after = final(heap)@[completion.addr()];
                &&& taken is Some
                &&& *(taken->0) == before.header.state
                &&& after.header.state == *final(taken->0)
                &&& after.header.ref_count == before.header.ref_count
                &&& after.data == before.data
                &&& final(heap)@.dom() == heap@.dom()
                &&& final(heap)@.remove(completion.addr()) == heap@.remove(completion.addr())
            },
{
}

/// An operation's data is moved out once, and looked at where it is.
pub proof fn law_completion_data_is_its_own<T, D>(completion: CompletionRef<T>, data: D)
    ensures
        forall|heap: &mut KernelHeap<D>| #[trigger]
            call_ensures(CompletionRef::<T>::data::<D>, (&completion, heap), data)
                && heap@.dom().contains(completion.addr()) ==> {
                let before = heap@[completion.addr()];
                let after = final(heap)@[completion.addr()];
                &&& before.data == Some(data)
                &&& after.data is None
                &&& after.header.ref_count == before.header.ref_count
                &&& after.header.state == before.header.state
                &&& final(heap)@.dom() == heap@.dom()
                &&& final(heap)@.remove(completion.addr()) == heap@.remove(completion.addr())
            },
        forall|heap: &KernelHeap<D>| #[trigger]
            call_ensures(CompletionRef::<T>::data_ref::<D>, (&completion, heap), &data)
                ==> heap@[completion.addr()].data == Some(data),
{
}

/// The kernel's handle to an operation is one handle more, under the operation's own address, which
/// leads back to it; a handle that is given back is one handle less, and the last takes the object
/// along.
pub proof fn law_completion_handles_count<T, D>(
    completion: CompletionRef<T>,
    user_data: u64,
    back: CompletionRef<()>,
    object: Option<KernelOwnedOnHeap<D>>,
)
    ensures
        forall|heap: &mut KernelHeap<D>| #[trigger]
            call_ensures(
                CompletionRef::<T>::place_clone_in_kernel::<D>,
                (&completion, heap),
                user_data,
            ) && heap@.dom().contains(completion.addr()) ==> {
                let before = heap@[completion.addr()];
                let after = final(heap)@[completion.addr()];
                &&& user_data == completion.addr()
                &&& before.header.ref_count < usize::MAX ==> after.header.ref_count
                    == before.header.ref_count + 1
                &&& before.header.ref_count == usize::MAX ==> after.header.ref_count == 0
                &&& after.header.state == before.header.state
                &&& after.data == before.data
                &&& final(heap)@.dom() == heap@.dom()
                &&& final(heap)@.remove(completion.addr()) == heap@.remove(completion.addr())
            },
        call_ensures(CompletionRef::<()>::from_user_data, (user_data,), back) ==> back.addr()
            == user_data,
        forall|heap: &mut KernelHeap<D>| #[trigger]
            call_ensures(CompletionRef::<T>::release::<D>, (completion, heap), ())
                && heap@.dom().contains(completion.addr()) ==> {
                let before = heap@[completion.addr()];
                let after = final(heap)@[completion.addr()];
                &&& final(heap)@.remove(completion.addr()) == heap@.remove(completion.addr())
                &&& final(heap)@.dom().contains(completion.addr()) <==> before.header.ref_count
                    != 1
                &&& before.header.ref_count != 1 ==> after.header.state == before.header.state
                    && after.data == before.data
                &&& before.header.ref_count > 1 ==> after.header.ref_count
                    == before.header.ref_count - 1
                &&& before.header.ref_count == 0 ==> after.header.ref_count == usize::MAX
            },
        forall|heap: &mut KernelHeap<D>| #[trigger]
            call_ensures(CompletionRef::<T>::reclaim::<D>, (completion, heap), object)
                && heap@.dom().contains(completion.addr()) ==> {
                let before = heap@[completion.addr()];
                let after = final(heap)@[completion.addr()];
                &&& object is Some <==> before.header.ref_count == 1
                &&& object is Some ==> object->0 == before
                &&& final(heap)@.remove(completion.addr()) == heap@.remove(completion.addr())
                &&& final(heap)@.dom().contains(completion.addr()) <==> before.header.ref_count
                    != 1
                &&& before.header.ref_count != 1 ==> after.header.state == before.header.state
                    && after.data == before.data
                &&& before.header.ref_count > 1 ==> after.header.ref_count
                    == before.header.ref_count - 1
                &&& before.header.ref_count == 0 ==> after.header.ref_count == usize::MAX
            },
{
}

} // verus!
