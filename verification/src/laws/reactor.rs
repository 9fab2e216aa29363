//! What callers can rely on when the kernel answers.

use vstd::prelude::*;

use crate::future::CompletionState;
use crate::owned::{KernelHeap, KernelOwnedOnHeap, KernelOwnedOnHeapHeader};
use crate::reactor::{
    after_completions, all_freed, answerable, answerable_count, is_answered,
    law_completions_pointwise, pending, process_round, process_uring, set_result, settled,
    take_answer, Completion, Reactor, Round,
};

verus! {

/// An answer can be taken in whenever an operation is in progress under its name. The waker that
/// the operation waits with is returned; the operation is completed with that very answer and has
/// one handle less, or is gone if it had no other; its data and every other object stay what they
/// were.
pub proof fn law_answer_completes_its_operation<T>(
    user_data: u64,
    result: i32,
    before_waker: u64,
    waker: u64,
)
    ensures
        forall|heap: &mut KernelHeap<T>|
            heap.wf() && heap@.dom().contains(user_data) && heap@[user_data].header.state == (
            CompletionState::InProgress { waker: before_waker }) ==> #[trigger] call_requires(
                set_result::<T>,
                (heap, user_data, result),
            ),
        forall|heap: &mut KernelHeap<T>| #[trigger]
            call_ensures(set_result::<T>, (heap, user_data, result), waker)
                && heap@.dom().contains(user_data) && heap@[user_data].header.state == (
            CompletionState::InProgress { waker: before_waker }) ==> {
                let before = heap@[user_data];
                let after = final(heap)@[user_data];
                &&& waker == before_waker
                &&& final(heap)@.remove(user_data) == heap@.remove(user_data)
                &&& final(heap)@.dom().contains(user_data) <==> before.header.ref_count != 1
                &&& before.header.ref_count != 1 ==> after.header.state == (
                CompletionState::Completed { result }) && after.data == before.data
                &&& before.header.ref_count > 1 ==> after.header.ref_count
                    == before.header.ref_count - 1
                &&& before.header.ref_count == 0 ==> after.header.ref_count == usize::MAX
            },
{
}

/// Taking an answer in for the object wakes, records and counts in the same way, and hands the
/// object out, if and only if the kernel's handle was the last: completed with that very answer,
/// with the data that it had.
pub proof fn law_answer_hands_the_object_out<T>(
    completion: Completion,
    answer: (u64, Option<KernelOwnedOnHeap<T>>),
    waker: u64,
)
    ensures
        forall|heap: &mut KernelHeap<T>|
            heap.wf() && heap@.dom().contains(completion.user_data)
                && heap@[completion.user_data].header.state is InProgress
                ==> #[trigger] call_requires(take_answer::<T>, (heap, completion)),
        forall|heap: &mut KernelHeap<T>| #[trigger]
            call_ensures(take_answer::<T>, (heap, completion), answer) ==> {
                let before = heap@[completion.user_data];
                &&& answer.1 is Some <==> before.header.ref_count == 1
                &&& answer.1 is Some ==> (answer.1->0).header.state == (
                CompletionState::Completed { result: completion.result })
                    && (answer.1->0).header.ref_count == 1 && (answer.1->0).data == before.data
            },
        forall|heap: &mut KernelHeap<T>, other: &mut KernelHeap<T>|
            #![trigger
                call_ensures(take_answer::<T>, (heap, completion), answer),
                call_ensures(
                    set_result::<T>,
                    (other, completion.user_data, completion.result),
                    waker,
                )
            ]
            heap@ == other@ && call_ensures(take_answer::<T>, (heap, completion), answer)
                && call_ensures(
                set_result::<T>,
                (other, completion.user_data, completion.result),
                waker,
            ) ==> answer.0 == waker && final(heap)@ == final(other)@,
{
}

/// Answers to different operations that are in progress are answers that can be taken in, and what
/// becomes of the operations.
proof fn lemma_answers_pointwise<T>(completions: Seq<Completion>)
    ensures
        forall|objects: Map<u64, KernelOwnedOnHeap<T>>|
            #![trigger after_completions(objects, completions)]
            #![trigger answerable(objects, completions)]
            (forall|i: int|
                0 <= i < completions.len() ==> objects.dom().contains(
                    (#[trigger] completions[i]).user_data,
                ) && objects[completions[i].user_data].header.state is InProgress) && (forall|
                i: int,
                j: int,
            |
                0 <= i < j < completions.len() ==> (#[trigger] completions[i]).user_data != (
                #[trigger] completions[j]).user_data) ==> {
                let after = after_completions(objects, completions);
                &&& answerable(objects, completions)
                &&& forall|i: int|
                    0 <= i < completions.len() ==> {
                        let before = objects[(#[trigger] completions[i]).user_data];
                        let object = after[completions[i].user_data];
                        &&& after.dom().contains(completions[i].user_data)
                            <==> before.header.ref_count != 1
                        &&& before.header.ref_count != 1 ==> object.header.state == (
                        CompletionState::Completed { result: completions[i].result })
                            && object.data == before.data
                        &&& before.header.ref_count > 1 ==> object.header.ref_count
                            == before.header.ref_count - 1
                        &&& before.header.ref_count == 0 ==> object.header.ref_count == usize::MAX
                    }
                &&& forall|addr: u64|
                    (forall|i: int|
                        0 <= i < completions.len() ==> (#[trigger] completions[i]).user_data
                            != addr) ==> (#[trigger] after.dom().contains(addr)
                        <==> objects.dom().contains(addr)) && (objects.dom().contains(addr)
                        ==> after[addr] == objects[addr])
            },
{
    assert forall|objects: Map<u64, KernelOwnedOnHeap<T>>|
        #![trigger after_completions(objects, completions)]
        #![trigger answerable(objects, completions)]
        (forall|i: int|
            0 <= i < completions.len() ==> objects.dom().contains(
                (#[trigger] completions[i]).user_data,
            ) && objects[completions[i].user_data].header.state is InProgress) && (forall|
            i: int,
            j: int,
        |
            0 <= i < j < completions.len() ==> (#[trigger] completions[i]).user_data != (
            #[trigger] completions[j]).user_data) implies ({
        let after = after_completions(objects, completions);
        &&& answerable(objects, completions)
        &&& forall|i: int|
            0 <= i < completions.len() ==> {
                let before = objects[(#[trigger] completions[i]).user_data];
                let object = after[completions[i].user_data];
                &&& after.dom().contains(completions[i].user_data) <==> before.header.ref_count
                    != 1
                &&& before.header.ref_count != 1 ==> object.header.state == (
                CompletionState::Completed { result: completions[i].result }) && object.data
                    == before.data
                &&& before.header.ref_count > 1 ==> object.header.ref_count
                    == before.header.ref_count - 1
                &&& before.header.ref_count == 0 ==> object.header.ref_count == usize::MAX
            }
        &&& forall|addr: u64|
            (forall|i: int|
                0 <= i < completions.len() ==> (#[trigger] completions[i]).user_data != addr) ==> (
            #[trigger] after.dom().contains(addr) <==> objects.dom().contains(addr)) && (
            objects.dom().contains(addr) ==> after[addr] == objects[addr])
    }) by {
        assert(forall|i: int|
            0 <= i < completions.len() ==> pending(objects, (#[trigger] completions[i]).user_data));
        assert(answerable(objects, completions));
        law_completions_pointwise(objects, completions);
        let after = after_completions(objects, completions);
        assert forall|i: int| 0 <= i < completions.len() implies settled(
            objects,
            #[trigger] completions[i],
            after,
        ) by {}
        assert forall|addr: u64|
            (forall|i: int|
                0 <= i < completions.len() ==> (#[trigger] completions[i]).user_data
                    != addr) implies (#[trigger] after.dom().contains(addr)
            <==> objects.dom().contains(addr)) && (objects.dom().contains(addr) ==> after[addr]
            == objects[addr]) by {
            assert(!is_answered(completions, addr));
        }
    }
}

/// Answers to different operations that are in progress can be taken in. Each operation's waker is
/// returned, in the order of the answers; each operation is completed with its own answer and has
/// one handle less, or is gone if it had no other; every object that no answer names stays what it
/// was.
pub proof fn law_ring_answers_each_operation<T>(completions: Vec<Completion>, woken: Vec<u64>)
    ensures
        forall|reactor: &mut Reactor<T>|
            reactor.heap.wf() && (forall|i: int|
                0 <= i < completions@.len() ==> reactor.heap@.dom().contains(
                    (#[trigger] completions@[i]).user_data,
                ) && reactor.heap@[completions@[i].user_data].header.state is InProgress) && (
            forall|i: int, j: int|
                0 <= i < j < completions@.len() ==> (#[trigger] completions@[i]).user_data != (
                #[trigger] completions@[j]).user_data) ==> #[trigger] call_requires(
                process_uring::<T>,
                (reactor, &completions),
            ),
        forall|reactor: &mut Reactor<T>| #[trigger]
            call_ensures(process_uring::<T>, (reactor, &completions), woken) && (forall|i: int|
                0 <= i < completions@.len() ==> reactor.heap@.dom().contains(
                    (#[trigger] completions@[i]).user_data,
                ) && reactor.heap@[completions@[i].user_data].header.state is InProgress) && (
            forall|i: int, j: int|
                0 <= i < j < completions@.len() ==> (#[trigger] completions@[i]).user_data != (
                #[trigger] completions@[j]).user_data) ==> {
                &&& woken@.len() >= completions@.len()
                &&& forall|i: int|
                    0 <= i < completions@.len() ==> {
                        let before = reactor.heap@[(#[trigger] completions@[i]).user_data];
                        let after = final(reactor).heap@[completions@[i].user_data];
                        &&& before.header.state == (CompletionState::InProgress {
                            waker: woken@[i],
                        })
                        &&& final(reactor).heap@.dom().contains(completions@[i].user_data)
                            <==> before.header.ref_count != 1
                        &&& before.header.ref_count != 1 ==> after.header.state == (
                        CompletionState::Completed { result: completions@[i].result })
                            && after.data == before.data
                        &&& before.header.ref_count > 1 ==> after.header.ref_count
                            == before.header.ref_count - 1
                        &&& before.header.ref_count == 0 ==> after.header.ref_count == usize::MAX
                    }
                &&& forall|addr: u64|
                    (forall|i: int|
                        0 <= i < completions@.len() ==> (#[trigger] completions@[i]).user_data
                            != addr) ==> (#[trigger] final(reactor).heap@.dom().contains(addr)
                        <==> reactor.heap@.dom().contains(addr)) && (reactor.heap@.dom().contains(
                        addr,
                    ) ==> final(reactor).heap@[addr] == reactor.heap@[addr])
            },
{
    lemma_answers_pointwise::<T>(completions@);
}

/// A ring that was processed leaves a task waiting for room only if 256 were woken that waited: if
/// no more than 256 waited, all of them are woken, in the order in which they came, and nobody
/// waits any more; if more did, exactly the first 256 are woken, and the others keep their places.
pub proof fn law_ring_wakes_who_waits_for_room<T>(completions: Vec<Completion>, woken: Vec<u64>)
    ensures
        forall|reactor: &mut Reactor<T>| #[trigger]
            call_ensures(process_uring::<T>, (reactor, &completions), woken) ==> {
                let n = completions@.len() as int;
                &&& reactor.waiting@.len() <= 256 ==> {
                    &&& woken@.skip(n) == reactor.waiting@
                    &&& final(reactor).waiting@.len() == 0
                }
                &&& reactor.waiting@.len() > 256 ==> {
                    &&& woken@.skip(n) == reactor.waiting@.take(256)
                    &&& final(reactor).waiting@ == reactor.waiting@.skip(256)
                }
                &&& woken@.skip(n) + final(reactor).waiting@ == reactor.waiting@
            },
{
}

/// Each ring that is processed counts once, and each answer counts once; counters start over at
/// zero after the largest machine word.
pub proof fn law_ring_counts<T>(completions: Vec<Completion>, woken: Vec<u64>)
    ensures
        forall|reactor: &mut Reactor<T>| #[trigger]
            call_ensures(process_uring::<T>, (reactor, &completions), woken) ==> {
                let rounds = reactor.rounds + 1;
                let completed = reactor.completed + completions@.len();
                &&& rounds <= usize::MAX ==> final(reactor).rounds == rounds
                &&& rounds > usize::MAX ==> final(reactor).rounds == rounds - usize::MAX - 1
                &&& completed <= usize::MAX ==> final(reactor).completed == completed
                &&& completed > usize::MAX ==> final(reactor).completed == completed - usize::MAX
                    - 1
            },
{
}

/// A new reactor has no objects, nobody waits in it, and nothing is counted.
pub proof fn law_reactor_starts_empty<T>(reactor: Reactor<T>, addr: u64)
    requires
        call_ensures(Reactor::<T>::new, (), reactor),
    ensures
        !reactor.heap@.dom().contains(addr),
        reactor.waiting@.len() == 0,
        reactor.rounds == 0,
        reactor.completed == 0,
{
}

/// What the longest beginning of `completions` that can be taken in is like.
proof fn lemma_longest_beginning<T>(
    objects: Map<u64, KernelOwnedOnHeap<T>>,
    completions: Seq<Completion>,
    count: int,
)
    requires
        0 <= count <= completions.len(),
        answerable(objects, completions.take(count)),
        count < completions.len() ==> !answerable(objects, completions.take(count + 1)),
    ensures
        forall|i: int|
            0 <= i < count ==> objects.dom().contains((#[trigger] completions[i]).user_data)
                && objects[completions[i].user_data].header.state is InProgress,
        forall|i: int, j: int|
            0 <= i < j < count ==> (#[trigger] completions[i]).user_data != (
            #[trigger] completions[j]).user_data,
        count < completions.len() ==> {
            let stray = completions[count].user_data;
            ||| !objects.dom().contains(stray)
            ||| !(objects[stray].header.state is InProgress)
            ||| exists|i: int| 0 <= i < count && (#[trigger] completions[i]).user_data == stray
        },
{
    let prefix = completions.take(count);
    assert forall|i: int| 0 <= i < count implies objects.dom().contains(
        (#[trigger] completions[i]).user_data,
    ) && objects[completions[i].user_data].header.state is InProgress by {
        assert(prefix[i] == completions[i]);
        assert(pending(objects, prefix[i].user_data));
    }
    assert forall|i: int, j: int| 0 <= i < j < count implies (#[trigger] completions[i]).user_data
        != (#[trigger] completions[j]).user_data by {
        assert(prefix[i] == completions[i] && prefix[j] == completions[j]);
    }
    if count < completions.len() {
        let longer = completions.take(count + 1);
        let stray = completions[count].user_data;
        if objects.dom().contains(stray) && objects[stray].header.state is InProgress && !(exists|
            i: int,
        |
            0 <= i < count && (#[trigger] completions[i]).user_data == stray) {
            assert(forall|i: int| 0 <= i < longer.len() ==> longer[i] == completions[i]);
            assert forall|i: int| 0 <= i < longer.len() implies objects.dom().contains(
                (#[trigger] longer[i]).user_data,
            ) && objects[longer[i].user_data].header.state is InProgress by {
                assert(longer[i] == completions[i]);
            }
            lemma_answers_pointwise::<T>(longer);
            assert(answerable(objects, longer));
        }
    }
}

/// The answers that can be taken in, from the first on, are those before the first that names no
/// operation in progress, or the same operation as an answer before it.
pub proof fn law_answers_are_counted_up_to_the_first_stray<T>(
    heap: KernelHeap<T>,
    completions: Vec<Completion>,
    count: usize,
)
    requires
        call_ensures(answerable_count::<T>, (&heap, &completions), count),
    ensures
        count <= completions@.len(),
        forall|i: int|
            0 <= i < count ==> heap@.dom().contains((#[trigger] completions@[i]).user_data)
                && heap@[completions@[i].user_data].header.state is InProgress,
        forall|i: int, j: int|
            0 <= i < j < count ==> (#[trigger] completions@[i]).user_data != (
            #[trigger] completions@[j]).user_data,
        count < completions@.len() ==> {
            let stray = completions@[count as int].user_data;
            ||| !heap@.dom().contains(stray)
            ||| !(heap@[stray].header.state is InProgress)
            ||| exists|i: int| 0 <= i < count && (#[trigger] completions@[i]).user_data == stray
        },
{
    lemma_longest_beginning(heap@, completions@, count as int);
}

/// A round takes in the answers before the first that names no operation in progress, or the same
/// operation as an answer before it.
pub proof fn law_round_goes_up_to_the_first_stray<T>(completions: Vec<Completion>, round: Round<T>)
    ensures
        forall|reactor: &mut Reactor<T>| #[trigger]
            call_ensures(process_round::<T>, (reactor, &completions), round) ==> {
                &&& round.answered <= completions@.len()
                &&& forall|i: int|
                    0 <= i < round.answered ==> reactor.heap@.dom().contains(
                        (#[trigger] completions@[i]).user_data,
                    ) && reactor.heap@[completions@[i].user_data].header.state is InProgress
                &&& forall|i: int, j: int|
                    0 <= i < j < round.answered ==> (#[trigger] completions@[i]).user_data != (
                    #[trigger] completions@[j]).user_data
                &&& round.answered < completions@.len() ==> {
                    let stray = completions@[round.answered as int].user_data;
                    ||| !reactor.heap@.dom().contains(stray)
                    ||| !(reactor.heap@[stray].header.state is InProgress)
                    ||| exists|i: int|
                        0 <= i < round.answered && (#[trigger] completions@[i]).user_data == stray
                }
            },
{
    assert forall|reactor: &mut Reactor<T>| #[trigger]
        call_ensures(process_round::<T>, (reactor, &completions), round) implies {
        &&& round.answered <= completions@.len()
        &&& forall|i: int|
            0 <= i < round.answered ==> reactor.heap@.dom().contains(
                (#[trigger] completions@[i]).user_data,
            ) && reactor.heap@[completions@[i].user_data].header.state is InProgress
        &&& forall|i: int, j: int|
            0 <= i < j < round.answered ==> (#[trigger] completions@[i]).user_data != (
            #[trigger] completions@[j]).user_data
        &&& round.answered < completions@.len() ==> {
            let stray = completions@[round.answered as int].user_data;
            ||| !reactor.heap@.dom().contains(stray)
            ||| !(reactor.heap@[stray].header.state is InProgress)
            ||| exists|i: int|
                0 <= i < round.answered && (#[trigger] completions@[i]).user_data == stray
        }
    } by {
        lemma_longest_beginning(reactor.heap@, completions@, round.answered as int);
    }
}

/// The objects that go with the answers to different operations are those of the answered operations
/// that have no other handle, in the order of the answers: completed with their own answer, with
/// the data that they had.
proof fn lemma_freed_in_order<T>(
    objects: Map<u64, KernelOwnedOnHeap<T>>,
    completions: Seq<Completion>,
)
    requires
        answerable(objects, completions),
    ensures
        all_freed(objects, completions) == completions.filter(
            |completion: Completion| objects[completion.user_data].header.ref_count == 1,
        ).map_values(
            |completion: Completion|
                KernelOwnedOnHeap {
                    header: KernelOwnedOnHeapHeader {
                        ref_count: 1,
                        state: CompletionState::Completed { result: completion.result },
                    },
                    data: objects[completion.user_data].data,
                },
        ),
    decreases completions.len(),
{
    reveal(Seq::filter);
    let goes = |completion: Completion| objects[completion.user_data].header.ref_count == 1;
    let object = |completion: Completion|
        KernelOwnedOnHeap {
            header: KernelOwnedOnHeapHeader {
                ref_count: 1,
                state: CompletionState::Completed { result: completion.result },
            },
            data: objects[completion.user_data].data,
        };
    if completions.len() == 0 {
        assert(completions.filter(goes).map_values(object) =~= Seq::empty());
    } else {
        let init = completions.drop_last();
        let last = completions.last();
        assert(forall|i: int| 0 <= i < init.len() ==> #[trigger] init[i] == completions[i]);
        assert(last == completions[completions.len() - 1]);
        lemma_freed_in_order(objects, init);
        law_completions_pointwise(objects, init);
        assert(!is_answered(init, last.user_data));
        assert(pending(objects, last.user_data));
        assert(after_completions(objects, init)[last.user_data] == objects[last.user_data]);
        if goes(last) {
            assert(completions.filter(goes) == init.filter(goes).push(last));
            assert(completions.filter(goes).map_values(object) =~= init.filter(goes).map_values(
                object,
            ).push(object(last)));
        } else {
            assert(completions.filter(goes) == init.filter(goes));
        }
    }
}

/// A round of answers to different operations that are in progress is a ring that is processed. It
/// hands out the objects of those operations that had no other handle, in the order of the answers:
/// completed with their own answer, with the data that they had.
pub proof fn law_round_is_a_processed_ring<T>(
    completions: Vec<Completion>,
    round: Round<T>,
    woken: Vec<u64>,
)
    ensures
        forall|reactor: &mut Reactor<T>| #[trigger]
            call_ensures(process_round::<T>, (reactor, &completions), round) && (forall|i: int|
                0 <= i < completions@.len() ==> reactor.heap@.dom().contains(
                    (#[trigger] completions@[i]).user_data,
                ) && reactor.heap@[completions@[i].user_data].header.state is InProgress) && (
            forall|i: int, j: int|
                0 <= i < j < completions@.len() ==> (#[trigger] completions@[i]).user_data != (
                #[trigger] completions@[j]).user_data) ==> {
                &&& round.answered == completions@.len()
                &&& round.freed@ == completions@.filter(
                    |completion: Completion|
                        reactor.heap@[completion.user_data].header.ref_count == 1,
                ).map_values(
                    |completion: Completion|
                        KernelOwnedOnHeap {
                            header: KernelOwnedOnHeapHeader {
                                ref_count: 1,
                                state: CompletionState::Completed { result: completion.result },
                            },
                            data: reactor.heap@[completion.user_data].data,
                        },
                )
            },
        forall|reactor: &mut Reactor<T>, other: &mut Reactor<T>|
            #![trigger
                call_ensures(process_round::<T>, (reactor, &completions), round),
                call_ensures(process_uring::<T>, (other, &completions), woken)
            ]
            call_ensures(process_round::<T>, (reactor, &completions), round) && call_ensures(
                process_uring::<T>,
                (other, &completions),
                woken,
            ) && reactor.heap@ == other.heap@ && reactor.waiting@ == other.waiting@
                && reactor.rounds == other.rounds && reactor.completed == other.completed
                && round.answered == completions@.len() ==> {
                &&& round.woken@ == woken@
                &&& final(reactor).heap@ == final(other).heap@
                &&& final(reactor).waiting@ == final(other).waiting@
                &&& final(reactor).rounds == final(other).rounds
                &&& final(reactor).completed == final(other).completed
            },
{
    lemma_answers_pointwise::<T>(completions@);
    assert forall|reactor: &mut Reactor<T>| #[trigger]
        call_ensures(process_round::<T>, (reactor, &completions), round) && (forall|i: int|
            0 <= i < completions@.len() ==> reactor.heap@.dom().contains(
                (#[trigger] completions@[i]).user_data,
            ) && reactor.heap@[completions@[i].user_data].header.state is InProgress) && (forall|
            i: int,
            j: int,
        |
            0 <= i < j < completions@.len() ==> (#[trigger] completions@[i]).user_data != (
            #[trigger] completions@[j]).user_data) implies {
        &&& round.answered == completions@.len()
        &&& round.freed@ == completions@.filter(
            |completion: Completion| reactor.heap@[completion.user_data].header.ref_count == 1,
        ).map_values(
            |completion: Completion|
                KernelOwnedOnHeap {
                    header: KernelOwnedOnHeapHeader {
                        ref_count: 1,
                        state: CompletionState::Completed { result: completion.result },
                    },
                    data: reactor.heap@[completion.user_data].data,
                },
        )
    } by {
        assert(answerable(reactor.heap@, completions@));
        lemma_freed_in_order(reactor.heap@, completions@);
    }
}

/// A round that meets a stray answer wakes whoever waits for the answers before it, and nobody who
/// waits for room. The answers before it do what a ring of them does; the stray one is recorded in
/// the object under its name, if there is one, which loses a handle; it counts as an answer.
pub proof fn law_round_stops_at_a_stray_answer<T>(
    completions: Vec<Completion>,
    round: Round<T>,
    before_it: Vec<Completion>,
    woken: Vec<u64>,
)
    ensures
        forall|reactor: &mut Reactor<T>, other: &mut Reactor<T>|
            #![trigger
                call_ensures(process_round::<T>, (reactor, &completions), round),
                call_ensures(process_uring::<T>, (other, &before_it), woken)
            ]
            call_ensures(process_round::<T>, (reactor, &completions), round) && call_ensures(
                process_uring::<T>,
                (other, &before_it),
                woken,
            ) && reactor.heap@ == other.heap@ && reactor.rounds == other.rounds
                && round.answered < completions@.len() && before_it@ == completions@.take(
                round.answered as int,
            ) ==> {
                let stray = completions@[round.answered as int];
                let before = final(other).heap@;
                let after = final(reactor).heap@;
                &&& round.woken@ == woken@.take(round.answered as int)
                &&& final(reactor).waiting@ == reactor.waiting@
                &&& final(reactor).rounds == final(other).rounds
                &&& reactor.completed + round.answered < usize::MAX ==> final(reactor).completed
                    == reactor.completed + round.answered + 1
                &&& reactor.completed + round.answered >= usize::MAX ==> final(reactor).completed
                    == reactor.completed + round.answered - usize::MAX
                &&& after.remove(stray.user_data) == before.remove(stray.user_data)
                &&& !before.dom().contains(stray.user_data) ==> after == before
                &&& before.dom().contains(stray.user_data) ==> {
                    let ref_count = before[stray.user_data].header.ref_count;
                    let object = after[stray.user_data];
                    &&& after.dom().contains(stray.user_data) <==> ref_count != 1
                    &&& ref_count != 1 ==> object.header.state == (CompletionState::Completed {
                        result: stray.result,
                    }) && object.data == before[stray.user_data].data
                    &&& ref_count > 1 ==> object.header.ref_count == ref_count - 1
                    &&& ref_count == 0 ==> object.header.ref_count == usize::MAX
                }
            },
{
}

/// What a round with a stray answer hands out: the objects of a round of the answers before it, and
/// the object that the stray answer took the last handle of, completed with that answer.
pub proof fn law_stray_answer_hands_its_object_out<T>(
    completions: Vec<Completion>,
    round: Round<T>,
    before_it: Vec<Completion>,
    earlier: Round<T>,
)
    ensures
        forall|reactor: &mut Reactor<T>, other: &mut Reactor<T>|
            #![trigger
                call_ensures(process_round::<T>, (reactor, &completions), round),
                call_ensures(process_round::<T>, (other, &before_it), earlier)
            ]
            call_ensures(process_round::<T>, (reactor, &completions), round) && call_ensures(
                process_round::<T>,
                (other, &before_it),
                earlier,
            ) && reactor.heap@ == other.heap@ && round.answered < completions@.len() && before_it@
                == completions@.take(round.answered as int) ==> {
                let stray = completions@[round.answered as int];
                let before = final(other).heap@;
                let goes = before.dom().contains(stray.user_data)
                    && before[stray.user_data].header.ref_count == 1;
                &&& earlier.answered == round.answered
                &&& !goes ==> round.freed@ == earlier.freed@
                &&& goes ==> round.freed@ == earlier.freed@.push(
                    KernelOwnedOnHeap {
                        header: KernelOwnedOnHeapHeader {
                            ref_count: 1,
                            state: CompletionState::Completed { result: stray.result },
                        },
                        data: before[stray.user_data].data,
                    },
                )
            },
{
}

} // verus!
