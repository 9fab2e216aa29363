//! What callers can rely on of reads into borrowed buffers.

use vstd::prelude::*;

use crate::future::{CompletionState, PollStep};
use crate::owned::{KernelHeap, KernelOwnedOnHeap};
use crate::reactor::{
    after_completions, all_freed, answerable, freed_by, is_answered, law_completions_pointwise,
    pending, process_uring, set_result, Completion, Reactor,
};
use crate::read::{
    count_without, count_without_all, drop_reads, process_uring_counted, set_result_counted, Checker,
    CheckerCount, CompletionRef, Fut, Read,
};
use crate::sqe::Sqe;
use crate::waker_queue::WakerQueue;

verus! {

/// A read is for the file, the buffer and the offset that were given.
pub proof fn law_read_is_what_was_given<'a>(fd: i32, offset: u64)
    ensures
        forall|buf: &'a mut [u8], read: Read<'a>| #[trigger]
            call_ensures(Read::<'a>::new, (fd, buf, offset), read) ==> {
                &&& read.fd == fd
                &&& read.offset == offset
                &&& (*read.buf)@ == buf@
                &&& (*final(read.buf))@ == final(buf)@
            },
{
}

/// The entry of a read asks for the read that was given, field by field: its file, its offset, all
/// 64 bits of it, its address and its name, and the length of its buffer, of which the kernel takes
/// 32 bits. Every other field is zero.
pub proof fn law_entry_asks_for_the_read(
    read: Read<'_>,
    addr: u64,
    user_data: u64,
    entry: Sqe,
)
    requires
        call_ensures(Read::build_at, (&read, addr, user_data), entry),
    ensures
        entry.opcode == 22,
        entry.fd == read.fd,
        entry.off == read.offset,
        entry.addr == addr,
        entry.user_data == user_data,
        old(read.buf)@.len() < 0x1_0000_0000 ==> entry.len == old(read.buf)@.len(),
        entry.len == old(read.buf)@.len() % 0x1_0000_0000,
        entry.flags == 0,
        entry.ioprio == 0,
        entry.op_flags == 0,
        entry.buf_index == 0,
        entry.personality == 0,
        entry.splice_fd_in == 0,
        entry.addr3 == 0,
        entry.pad == 0,
{
}

/// The entry that is built for a buffer where it is, is the entry for an address of that buffer,
/// which is not null.
pub proof fn law_entry_is_for_the_buffer_where_it_is(
    read: Read<'_>,
    user_data: u64,
    entry: Sqe,
    other: Sqe,
)
    requires
        call_ensures(Read::build, (&read, user_data), entry),
        call_ensures(Read::build_at, (&read, entry.addr, user_data), other),
    ensures
        entry == other,
        entry.off == read.offset,
        read.in_memory_at(entry.addr),
        entry.addr != 0,
{
}

/// Reads that differ in file or offset, and entries for different names or addresses, are different
/// entries.
pub proof fn law_different_reads_have_different_entries(
    one: Read<'_>,
    one_addr: u64,
    one_data: u64,
    one_entry: Sqe,
    other: Read<'_>,
    other_addr: u64,
    other_data: u64,
    other_entry: Sqe,
)
    requires
        call_ensures(Read::build_at, (&one, one_addr, one_data), one_entry),
        call_ensures(Read::build_at, (&other, other_addr, other_data), other_entry),
    ensures
        one_entry.off == other_entry.off <==> one.offset == other.offset,
        one_entry.fd == other_entry.fd <==> one.fd == other.fd,
        one_entry.addr == other_entry.addr <==> one_addr == other_addr,
        one_entry.user_data == other_entry.user_data <==> one_data == other_data,
{
}

/// A read that is polled when there is room is handed to the kernel, under its own name and with
/// its own entry, on behalf of the very waker that the poll brought: it is in progress with that
/// waker and has one handle more. Its data, every other object and the waiting queue stay what they
/// were.
pub proof fn law_read_with_room_is_submitted<C, D>(
    future: Fut<'_, C>,
    waker: u64,
    step: PollStep<i32>,
)
    ensures
        forall|heap: &mut KernelHeap<D>, waiting: &mut WakerQueue| #[trigger]
            call_ensures(Fut::<C>::poll::<D>, (&future, heap, waiting, false, waker), step)
                && heap@.dom().contains(future.addr()) && heap@[future.addr()].header.state
                == CompletionState::Unsubmitted ==> {
                let before = heap@[future.addr()];
                let after = final(heap)@[future.addr()];
                &&& step is Submit
                &&& step->entry.opcode == 22
                &&& step->entry.fd == future.inner().fd
                &&& step->entry.off == future.inner().offset
                &&& step->entry.user_data == future.addr()
                &&& future.inner().in_memory_at(step->entry.addr)
                &&& step->entry.addr != 0
                &&& (*future.inner().buf)@.len() < 0x1_0000_0000 ==> step->entry.len == (
                *future.inner().buf)@.len()
                &&& step->entry.flags == 0
                &&& step->entry.ioprio == 0
                &&& step->entry.op_flags == 0
                &&& step->entry.buf_index == 0
                &&& step->entry.personality == 0
                &&& step->entry.splice_fd_in == 0
                &&& step->entry.addr3 == 0
                &&& step->entry.pad == 0
                &&& after.header.state == (CompletionState::InProgress { waker })
                &&& before.header.ref_count < usize::MAX ==> after.header.ref_count
                    == before.header.ref_count + 1
                &&& before.header.ref_count == usize::MAX ==> after.header.ref_count == 0
                &&& after.data == before.data
                &&& final(heap)@.dom() == heap@.dom()
                &&& final(heap)@.remove(future.addr()) == heap@.remove(future.addr())
                &&& final(waiting)@ == waiting@
            },
{
}

/// A read that is polled when there is no room leaves every object what it was, so that the next
/// poll finds it as this one did. The poll's waker is the last of those that wait for room.
pub proof fn law_read_without_room_only_waits<C, D>(
    future: Fut<'_, C>,
    waker: u64,
    step: PollStep<i32>,
)
    ensures
        forall|heap: &mut KernelHeap<D>, waiting: &mut WakerQueue| #[trigger]
            call_ensures(Fut::<C>::poll::<D>, (&future, heap, waiting, true, waker), step)
                && heap@[future.addr()].header.state == CompletionState::Unsubmitted ==> {
                &&& step is Parked
                &&& final(heap)@ == heap@
                &&& final(waiting)@.len() == waiting@.len() + 1
                &&& final(waiting)@.last() == waker
                &&& final(waiting)@.drop_last() == waiting@
            },
{
}

/// A read that was polled without room, and is polled again with room, is submitted, however many
/// tasks were woken in between.
pub proof fn law_read_that_waited_is_submitted<C, D>(
    future: Fut<'_, C>,
    waker: u64,
    step: PollStep<i32>,
    later_waker: u64,
    later_step: PollStep<i32>,
)
    ensures
        forall|
            heap: &mut KernelHeap<D>,
            waiting: &mut WakerQueue,
            later: &mut KernelHeap<D>,
            later_waiting: &mut WakerQueue,
        |
            #![trigger
                call_ensures(Fut::<C>::poll::<D>, (&future, heap, waiting, true, waker), step),
                call_ensures(
                    Fut::<C>::poll::<D>,
                    (&future, later, later_waiting, false, later_waker),
                    later_step,
                )
            ]
            call_ensures(Fut::<C>::poll::<D>, (&future, heap, waiting, true, waker), step)
                && call_ensures(
                Fut::<C>::poll::<D>,
                (&future, later, later_waiting, false, later_waker),
                later_step,
            ) && heap@.dom().contains(future.addr()) && heap@[future.addr()].header.state
                == CompletionState::Unsubmitted && later@ == final(heap)@ ==> step is Parked
                && later_step is Submit && later_step->entry.off == future.inner().offset
                && final(later)@[future.addr()].header.state == (CompletionState::InProgress {
                waker: later_waker,
            }),
{
}

/// A read that was answered is over, with the very answer, or, for a negative one, with the error
/// whose number is its absolute value. No object changes, and nobody starts to wait.
pub proof fn law_read_finds_its_answer<C, D>(
    future: Fut<'_, C>,
    ring_full: bool,
    waker: u64,
    step: PollStep<i32>,
    result: i32,
)
    ensures
        forall|heap: &mut KernelHeap<D>, waiting: &mut WakerQueue| #[trigger]
            call_ensures(Fut::<C>::poll::<D>, (&future, heap, waiting, ring_full, waker), step)
                && result != i32::MIN && heap@[future.addr()].header.state == (
            CompletionState::Completed { result }) ==> {
                &&& step is Ready
                &&& result >= 0 ==> step->output is Ok && step->output->Ok_0 == result
                &&& result < 0 ==> step->output is Err && step->output->Err_0.code == -result
                &&& final(heap)@ == heap@
                &&& final(waiting)@ == waiting@
            },
{
}

/// A read can be polled whenever it is not in progress.
pub proof fn law_reads_can_be_polled<C, D>(future: Fut<'_, C>, waker: u64, result: i32)
    ensures
        forall|heap: &mut KernelHeap<D>, waiting: &mut WakerQueue, ring_full: bool|
            heap.wf() && heap@.dom().contains(future.addr()) && (heap@[future.addr()].header.state
                == CompletionState::Unsubmitted || (heap@[future.addr()].header.state == (
            CompletionState::Completed { result }) && result != i32::MIN))
                ==> #[trigger] call_requires(
                Fut::<C>::poll::<D>,
                (&future, heap, waiting, ring_full, waker),
            ),
{
}

/// Whoever polled a read is woken: the next answer to a read that a poll has submitted returns the
/// waker that the poll brought, and the next poll finds that answer.
pub proof fn law_the_answer_to_a_read_wakes_who_polled<C, D>(
    future: Fut<'_, C>,
    waker: u64,
    step: PollStep<i32>,
    result: i32,
    woken: u64,
)
    ensures
        forall|heap: &mut KernelHeap<D>, waiting: &mut WakerQueue, later: &mut KernelHeap<D>|
            #![trigger
                call_ensures(Fut::<C>::poll::<D>, (&future, heap, waiting, false, waker), step),
                call_ensures(set_result::<D>, (later, future.addr(), result), woken)
            ]
            call_ensures(Fut::<C>::poll::<D>, (&future, heap, waiting, false, waker), step)
                && heap@.dom().contains(future.addr()) && heap@[future.addr()].header.state
                == CompletionState::Unsubmitted && 0 < heap@[future.addr()].header.ref_count
                < usize::MAX && later@ == final(heap)@ && call_ensures(
                set_result::<D>,
                (later, future.addr(), result),
                woken,
            ) ==> {
                &&& woken == waker
                &&& final(later)@.dom().contains(future.addr())
                &&& final(later)@[future.addr()].header.state == (CompletionState::Completed {
                    result,
                })
            },
{
}

/// A read starts out with an object of its own, which has one handle, was not submitted, and holds
/// a zero byte and the checker that was given; no other object changes.
pub proof fn law_read_starts_out<'a, C>(
    inner: Read<'a>,
    checker: C,
    future: Fut<'a, C>,
    completion: CompletionRef<C>,
)
    ensures
        forall|heap: &mut KernelHeap<(Vec<u8>, C)>| #[trigger]
            call_ensures(Fut::<'a, C>::new, (heap, inner, checker), future) ==> {
                let object = final(heap)@[future.addr()];
                &&& future.inner() == inner
                &&& future.addr() != 0
                &&& !heap@.dom().contains(future.addr())
                &&& final(heap)@.dom() == heap@.dom().insert(future.addr())
                &&& final(heap)@.remove(future.addr()) == heap@
                &&& object.header.ref_count == 1
                &&& object.header.state == CompletionState::Unsubmitted
                &&& object.data is Some
                &&& (object.data->0).0@ == seq![0u8]
                &&& (object.data->0).1 == checker
            },
        forall|heap: &mut KernelHeap<(Vec<u8>, C)>| #[trigger]
            call_ensures(CompletionRef::<C>::new, (heap, checker), completion) ==> {
                let object = final(heap)@[completion.addr()];
                &&& completion.addr() != 0
                &&& !heap@.dom().contains(completion.addr())
                &&& final(heap)@.dom() == heap@.dom().insert(completion.addr())
                &&& final(heap)@.remove(completion.addr()) == heap@
                &&& object.header.ref_count == 1
                &&& object.header.state == CompletionState::Unsubmitted
                &&& object.data is Some
                &&& (object.data->0).0@ == seq![0u8]
                &&& (object.data->0).1 == checker
            },
{
}

/// A counted read starts out in the same way, and counts one more checker.
pub proof fn law_counted_read_counts_once<'a>(
    inner: Read<'a>,
    future: Fut<'a, Checker>,
    completion: CompletionRef<Checker>,
)
    ensures
        forall|heap: &mut KernelHeap<(Vec<u8>, Checker)>, count: &mut CheckerCount| #[trigger]
            call_ensures(Fut::<'a, Checker>::counted, (heap, inner, count), future) ==> {
                let object = final(heap)@[future.addr()];
                &&& future.inner() == inner
                &&& future.addr() != 0
                &&& !heap@.dom().contains(future.addr())
                &&& final(heap)@.dom() == heap@.dom().insert(future.addr())
                &&& final(heap)@.remove(future.addr()) == heap@
                &&& object.header.ref_count == 1
                &&& object.header.state == CompletionState::Unsubmitted
                &&& object.data is Some
                &&& (object.data->0).0@ == seq![0u8]
                &&& count@ < usize::MAX ==> final(count)@ == count@ + 1
                &&& count@ == usize::MAX ==> final(count)@ == 0
            },
        forall|heap: &mut KernelHeap<(Vec<u8>, Checker)>, count: &mut CheckerCount| #[trigger]
            call_ensures(CompletionRef::<Checker>::counted, (heap, count), completion) ==> {
                let object = final(heap)@[completion.addr()];
                &&& completion.addr() != 0
                &&& !heap@.dom().contains(completion.addr())
                &&& final(heap)@.dom() == heap@.dom().insert(completion.addr())
                &&& final(heap)@.remove(completion.addr()) == heap@
                &&& object.header.ref_count == 1
                &&& object.header.state == CompletionState::Unsubmitted
                &&& object.data is Some
                &&& (object.data->0).0@ == seq![0u8]
                &&& count@ < usize::MAX ==> final(count)@ == count@ + 1
                &&& count@ == usize::MAX ==> final(count)@ == 0
            },
{
}

/// The number of checkers starts at zero, goes up by one with each that is made, and down by one
/// with each that is dropped; it starts over at zero after the largest machine word.
pub proof fn law_checkers_count(start: CheckerCount, live: usize, checker: Checker)
    ensures
        call_ensures(CheckerCount::new, (), start) ==> start@ == 0,
        call_ensures(CheckerCount::get, (&start,), live) ==> live == start@,
        forall|count: &mut CheckerCount| #[trigger]
            call_ensures(Checker::new, (count,), checker) ==> {
                &&& count@ < usize::MAX ==> final(count)@ == count@ + 1
                &&& count@ == usize::MAX ==> final(count)@ == 0
            },
        forall|count: &mut CheckerCount| #[trigger]
            call_ensures(Checker::release, (checker, count), ()) ==> {
                &&& count@ > 0 ==> final(count)@ == count@ - 1
                &&& count@ == 0 ==> final(count)@ == usize::MAX
            },
{
}

/// A read that ends gives up one handle: the last takes the object along, and no other object
/// changes. A counted read counts one checker less if and only if its object goes and still has
/// its checker.
pub proof fn law_read_ends<'a, C, D>(future: Fut<'a, C>, counted: Fut<'a, Checker>)
    ensures
        forall|heap: &mut KernelHeap<D>| #[trigger]
            call_ensures(Fut::<'a, C>::release::<D>, (future, heap), ()) && heap@.dom().contains(
                future.addr(),
            ) ==> {
                let before = heap@[future.addr()];
                let after = final(heap)@[future.addr()];
                &&& final(heap)@.remove(future.addr()) == heap@.remove(future.addr())
                &&& final(heap)@.dom().contains(future.addr()) <==> before.header.ref_count != 1
                &&& before.header.ref_count != 1 ==> after.header.state == before.header.state
                    && after.data == before.data
                &&& before.header.ref_count > 1 ==> after.header.ref_count
                    == before.header.ref_count - 1
                &&& before.header.ref_count == 0 ==> after.header.ref_count == usize::MAX
            },
        forall|heap: &mut KernelHeap<(Vec<u8>, Checker)>, count: &mut CheckerCount| #[trigger]
            call_ensures(Fut::<'a, Checker>::release_counted, (counted, heap, count), ())
                && heap@.dom().contains(counted.addr()) ==> {
                let before = heap@[counted.addr()];
                let after = final(heap)@[counted.addr()];
                &&& final(heap)@.remove(counted.addr()) == heap@.remove(counted.addr())
                &&& final(heap)@.dom().contains(counted.addr()) <==> before.header.ref_count != 1
                &&& before.header.ref_count != 1 ==> after.header.state == before.header.state
                    && after.data == before.data
                &&& before.header.ref_count > 1 ==> after.header.ref_count
                    == before.header.ref_count - 1
                &&& before.header.ref_count == 0 ==> after.header.ref_count == usize::MAX
                &&& before.header.ref_count == 1 && before.data is Some && count@ > 0
                    ==> final(count)@ == count@ - 1
                &&& before.header.ref_count == 1 && before.data is Some && count@ == 0
                    ==> final(count)@ == usize::MAX
                &&& before.header.ref_count != 1 || before.data is None ==> final(count)@ == count@
            },
{
}

/// A read's object is the one at its address.
pub proof fn law_read_finds_its_object<'a, C, D>(future: Fut<'a, C>, heap: KernelHeap<D>)
    ensures
        forall|object: Option<&KernelOwnedOnHeap<D>>| #[trigger]
            call_ensures(Fut::<'a, C>::object::<D>, (&future, &heap), object) ==> {
                &&& object is Some <==> heap@.dom().contains(future.addr())
                &&& object is Some ==> *(object->0) == heap@[future.addr()]
            },
{
}

/// The count after objects went, in numbers.
proof fn lemma_count_without_all<T>(count: usize, freed: Seq<KernelOwnedOnHeap<T>>)
    requires
        freed.len() <= usize::MAX,
    ensures
        ({
            let gone = freed.filter(|object: KernelOwnedOnHeap<T>| object.data is Some).len();
            &&& gone <= freed.len()
            &&& gone <= count ==> count_without_all(count, freed) == count - gone
            &&& gone > count ==> count_without_all(count, freed) == count - gone + usize::MAX + 1
        }),
    decreases freed.len(),
{
    reveal(Seq::filter);
    if freed.len() > 0 {
        let next = count_without(count, Some(freed.last()));
        lemma_count_without_all(next, freed.drop_last());
    }
}

/// The checkers of reads whose objects went are dropped: the count goes down by one for each of the
/// objects that still has its checker, and by no more.
pub proof fn law_dropped_reads_count_down(freed: Vec<KernelOwnedOnHeap<(Vec<u8>, Checker)>>)
    ensures
        forall|count: &mut CheckerCount| #[trigger]
            call_ensures(drop_reads, (freed, count), ()) ==> {
                let gone = freed@.filter(
                    |object: KernelOwnedOnHeap<(Vec<u8>, Checker)>| object.data is Some,
                ).len();
                &&& gone <= count@ ==> final(count)@ == count@ - gone
                &&& gone > count@ ==> final(count)@ == count@ - gone + usize::MAX + 1
            },
{
    assert forall|count: &mut CheckerCount| #[trigger]
        call_ensures(drop_reads, (freed, count), ()) implies {
        let gone = freed@.filter(
            |object: KernelOwnedOnHeap<(Vec<u8>, Checker)>| object.data is Some,
        ).len();
        &&& gone <= count@ ==> final(count)@ == count@ - gone
        &&& gone > count@ ==> final(count)@ == count@ - gone + usize::MAX + 1
    } by {
        assert(freed@.len() == freed.len());
        lemma_count_without_all(count@, freed@);
    }
}

/// A counted read is answered as any other; the count goes down by one if and only if its object
/// goes and still has its checker.
pub proof fn law_counted_answer_is_an_answer(
    user_data: u64,
    result: i32,
    waker: u64,
    other_waker: u64,
)
    ensures
        forall|heap: &mut KernelHeap<(Vec<u8>, Checker)>, count: &mut CheckerCount| #[trigger]
            call_ensures(set_result_counted, (heap, user_data, result, count), waker) ==> {
                let before = heap@[user_data];
                &&& before.header.ref_count == 1 && before.data is Some && count@ > 0
                    ==> final(count)@ == count@ - 1
                &&& before.header.ref_count == 1 && before.data is Some && count@ == 0
                    ==> final(count)@ == usize::MAX
                &&& before.header.ref_count != 1 || before.data is None ==> final(count)@ == count@
            },
        forall|
            heap: &mut KernelHeap<(Vec<u8>, Checker)>,
            count: &mut CheckerCount,
            other: &mut KernelHeap<(Vec<u8>, Checker)>,
        |
            #![trigger
                call_ensures(set_result_counted, (heap, user_data, result, count), waker),
                call_ensures(
                    set_result::<(Vec<u8>, Checker)>,
                    (other, user_data, result),
                    other_waker,
                )
            ]
            call_ensures(set_result_counted, (heap, user_data, result, count), waker)
                && call_ensures(
                set_result::<(Vec<u8>, Checker)>,
                (other, user_data, result),
                other_waker,
            ) && heap@ == other@ ==> waker == other_waker && final(heap)@ == final(other)@,
{
}

/// The objects with data that go with the answers to different operations are as many as the
/// answered operations that have no other handle, and have their data.
proof fn lemma_gone_with_data<T>(
    objects: Map<u64, KernelOwnedOnHeap<T>>,
    completions: Seq<Completion>,
)
    requires
        answerable(objects, completions),
    ensures
        all_freed(objects, completions).filter(
            |object: KernelOwnedOnHeap<T>| object.data is Some,
        ).len() == completions.filter(
            |completion: Completion|
                objects[completion.user_data].header.ref_count == 1
                    && objects[completion.user_data].data is Some,
        ).len(),
    decreases completions.len(),
{
    reveal(Seq::filter);
    if completions.len() > 0 {
        let init = completions.drop_last();
        let last = completions.last();
        assert(forall|i: int| 0 <= i < init.len() ==> #[trigger] init[i] == completions[i]);
        assert(last == completions[completions.len() - 1]);
        lemma_gone_with_data(objects, init);
        law_completions_pointwise(objects, init);
        assert(!is_answered(init, last.user_data));
        assert(pending(objects, last.user_data));
        let before = after_completions(objects, init);
        assert(before[last.user_data] == objects[last.user_data]);
        let freed = all_freed(objects, init);
        match freed_by(before, last) {
            Some(object) => {
                assert(freed.push(object).drop_last() =~= freed);
                assert(freed.push(object).last() == object);
            },
            None => {},
        }
    }
}

/// No more objects go than there are answers.
proof fn lemma_freed_is_no_more<T>(
    objects: Map<u64, KernelOwnedOnHeap<T>>,
    completions: Seq<Completion>,
)
    ensures
        all_freed(objects, completions).len() <= completions.len(),
    decreases completions.len(),
{
    if completions.len() > 0 {
        lemma_freed_is_no_more(objects, completions.drop_last());
    }
}

/// A ring of counted reads is processed as any other; the count goes down by one for each answered
/// read that has no other handle and still has its checker.
pub proof fn law_counted_ring_is_a_ring(
    completions: Vec<Completion>,
    woken: Vec<u64>,
    other_woken: Vec<u64>,
)
    ensures
        forall|
            reactor: &mut Reactor<(Vec<u8>, Checker)>,
            count: &mut CheckerCount,
            other: &mut Reactor<(Vec<u8>, Checker)>,
        |
            #![trigger
                call_ensures(process_uring_counted, (reactor, &completions, count), woken),
                call_ensures(
                    process_uring::<(Vec<u8>, Checker)>,
                    (other, &completions),
                    other_woken,
                )
            ]
            call_ensures(process_uring_counted, (reactor, &completions, count), woken)
                && call_ensures(
                process_uring::<(Vec<u8>, Checker)>,
                (other, &completions),
                other_woken,
            ) && reactor.heap@ == other.heap@ && reactor.waiting@ == other.waiting@
                && reactor.rounds == other.rounds && reactor.completed == other.completed ==> {
                &&& woken@ == other_woken@
                &&& final(reactor).heap@ == final(other).heap@
                &&& final(reactor).waiting@ == final(other).waiting@
                &&& final(reactor).rounds == final(other).rounds
                &&& final(reactor).completed == final(other).completed
            },
        forall|reactor: &mut Reactor<(Vec<u8>, Checker)>, count: &mut CheckerCount| #[trigger]
            call_ensures(process_uring_counted, (reactor, &completions, count), woken) && (forall|
                i: int,
            |
                0 <= i < completions@.len() ==> reactor.heap@.dom().contains(
                    (#[trigger] completions@[i]).user_data,
                ) && reactor.heap@[completions@[i].user_data].header.state is InProgress) && (
            forall|i: int, j: int|
                0 <= i < j < completions@.len() ==> (#[trigger] completions@[i]).user_data != (
                #[trigger] completions@[j]).user_data) ==> {
                let gone = completions@.filter(
                    |completion: Completion|
                        reactor.heap@[completion.user_data].header.ref_count == 1
                            && reactor.heap@[completion.user_data].data is Some,
                ).len();
                &&& gone <= count@ ==> final(count)@ == count@ - gone
                &&& gone > count@ ==> final(count)@ == count@ - gone + usize::MAX + 1
            },
{
    assert forall|reactor: &mut Reactor<(Vec<u8>, Checker)>, count: &mut CheckerCount| #[trigger]
        call_ensures(process_uring_counted, (reactor, &completions, count), woken) && (forall|
            i: int,
        |
            0 <= i < completions@.len() ==> reactor.heap@.dom().contains(
                (#[trigger] completions@[i]).user_data,
            ) && reactor.heap@[completions@[i].user_data].header.state is InProgress) && (forall|
            i: int,
            j: int,
        |
            0 <= i < j < completions@.len() ==> (#[trigger] completions@[i]).user_data != (
            #[trigger] completions@[j]).user_data) implies {
        let gone = completions@.filter(
            |completion: Completion|
                reactor.heap@[completion.user_data].header.ref_count == 1
                    && reactor.heap@[completion.user_data].data is Some,
        ).len();
        &&& gone <= count@ ==> final(count)@ == count@ - gone
        &&& gone > count@ ==> final(count)@ == count@ - gone + usize::MAX + 1
    } by {
        let objects = reactor.heap@;
        assert(forall|i: int|
            0 <= i < completions@.len() ==> pending(
                objects,
                (#[trigger] completions@[i]).user_data,
            ));
        assert(answerable(objects, completions@));
        lemma_gone_with_data(objects, completions@);
        lemma_freed_is_no_more(objects, completions@);
        assert(completions@.len() == completions.len());
        lemma_count_without_all(count@, all_freed(objects, completions@));
    }
}

} // verus!
