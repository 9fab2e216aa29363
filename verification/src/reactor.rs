//! What happens when the kernel answers.

use std::collections::HashSet;

use vstd::prelude::*;

use crate::future::{submitted, CompletionRef, CompletionState};
use crate::owned::{count_down, reclaimed, released, KernelHeap, KernelOwnedOnHeap};
use crate::waker_queue::WakerQueue;

verus! {

/// The number of processors that the runtime is laid out for.
pub const NR_CPU: usize = 16;

/// A completion queue entry: the kernel's answer to the operation that `user_data` names.
#[derive(Clone, Copy, Debug, PartialEq, Eq, Structural)]
pub struct Completion {
    pub user_data: u64,
    pub result: i32,
}

/// Whether the operation at `addr` waits for an answer.
pub open spec fn pending<T>(objects: Map<u64, KernelOwnedOnHeap<T>>, addr: u64) -> bool {
    objects.dom().contains(addr) && objects[addr].header.state is InProgress
}

/// The objects after the operation at `addr` was answered with `result`: the answer is recorded,
/// and the kernel's handle is given back.
pub open spec fn completed<T>(
    objects: Map<u64, KernelOwnedOnHeap<T>>,
    addr: u64,
    result: i32,
) -> Map<u64, KernelOwnedOnHeap<T>> {
    released(
        objects.insert(addr, objects[addr].in_state(CompletionState::Completed { result })),
        addr,
    )
}

/// The objects after the operations that `completions` name were answered, in order.
pub open spec fn after_completions<T>(
    objects: Map<u64, KernelOwnedOnHeap<T>>,
    completions: Seq<Completion>,
) -> Map<u64, KernelOwnedOnHeap<T>>
    decreases completions.len(),
{
    if completions.len() == 0 {
        objects
    } else {
        completed(
            after_completions(objects, completions.drop_last()),
            completions.last().user_data,
            completions.last().result,
        )
    }
}

/// The object that goes when the operation that `completion` names is answered: the kernel's handle
/// was the last.
pub open spec fn freed_by<T>(
    objects: Map<u64, KernelOwnedOnHeap<T>>,
    completion: Completion,
) -> Option<KernelOwnedOnHeap<T>> {
    let addr = completion.user_data;
    reclaimed(
        objects.insert(
            addr,
            objects[addr].in_state(CompletionState::Completed { result: completion.result }),
        ),
        addr,
    )
}

/// `objects` and, where there is one, one more.
pub open spec fn with_freed<T>(
    objects: Seq<KernelOwnedOnHeap<T>>,
    freed: Option<KernelOwnedOnHeap<T>>,
) -> Seq<KernelOwnedOnHeap<T>> {
    match freed {
        Some(object) => objects.push(object),
        None => objects,
    }
}

/// The objects that go when the operations that `completions` name are answered, in order.
pub open spec fn all_freed<T>(
    objects: Map<u64, KernelOwnedOnHeap<T>>,
    completions: Seq<Completion>,
) -> Seq<KernelOwnedOnHeap<T>>
    decreases completions.len(),
{
    if completions.len() == 0 {
        Seq::empty()
    } else {
        with_freed(
            all_freed(objects, completions.drop_last()),
            freed_by(after_completions(objects, completions.drop_last()), completions.last()),
        )
    }
}

/// The objects after the answer `stray`, for which no operation waits, was taken in: where there
/// is an object under its name, the answer is recorded and a handle is given back.
pub open spec fn after_stray<T>(
    objects: Map<u64, KernelOwnedOnHeap<T>>,
    stray: Completion,
) -> Map<u64, KernelOwnedOnHeap<T>> {
    if objects.dom().contains(stray.user_data) {
        completed(objects, stray.user_data, stray.result)
    } else {
        objects
    }
}

/// The object that goes when the answer `stray`, for which no operation waits, is taken in.
pub open spec fn freed_by_stray<T>(
    objects: Map<u64, KernelOwnedOnHeap<T>>,
    stray: Completion,
) -> Option<KernelOwnedOnHeap<T>> {
    if objects.dom().contains(stray.user_data) {
        freed_by(objects, stray)
    } else {
        None
    }
}

/// Whether every one of `completions` answers an operation that waits for it, and no two answer
/// the same one.
pub open spec fn answerable<T>(
    objects: Map<u64, KernelOwnedOnHeap<T>>,
    completions: Seq<Completion>,
) -> bool {
    &&& forall|i: int|
        0 <= i < completions.len() ==> pending(objects, (#[trigger] completions[i]).user_data)
    &&& forall|i: int, j: int|
        0 <= i < j < completions.len() ==> (#[trigger] completions[i]).user_data != (
        #[trigger] completions[j]).user_data
}

/// Whether one of `completions` answers the operation at `addr`.
pub open spec fn is_answered(completions: Seq<Completion>, addr: u64) -> bool {
    exists|i: int| 0 <= i < completions.len() && (#[trigger] completions[i]).user_data == addr
}

/// Whether `after` has the answer `completion` to one of `objects` settled: the operation is
/// completed and has one handle less, or is gone if it had no other.
pub open spec fn settled<T>(
    objects: Map<u64, KernelOwnedOnHeap<T>>,
    completion: Completion,
    after: Map<u64, KernelOwnedOnHeap<T>>,
) -> bool {
    let addr = completion.user_data;
    let object = objects[addr];
    if object.header.ref_count == 1 {
        !after.dom().contains(addr)
    } else {
        &&& after.dom().contains(addr)
        &&& after[addr] == object.in_state(
            CompletionState::Completed { result: completion.result },
        ).counting(count_down(object.header.ref_count))
    }
}

/// The wakers that wait for `completions`, in their order.
pub open spec fn completion_wakers<T>(
    objects: Map<u64, KernelOwnedOnHeap<T>>,
    completions: Seq<Completion>,
) -> Seq<u64> {
    Seq::new(
        completions.len(),
        |i: int| objects[completions[i].user_data].header.state->InProgress_waker,
    )
}

/// A counter after `more` events; counters wrap around, as atomic ones do.
pub open spec fn counted(count: usize, more: int) -> int {
    if count + more > usize::MAX {
        count + more - usize::MAX - 1
    } else {
        count + more
    }
}

/// How many of `waiting` tasks are woken at a time.
pub open spec fn unparked(waiting: nat) -> int {
    if waiting < NR_CPU * NR_CPU {
        waiting as int
    } else {
        NR_CPU * NR_CPU
    }
}

/// What the rings of a process share.
pub struct Reactor<T> {
    /// The state of the operations.
    pub heap: KernelHeap<T>,
    /// The tasks that wait for room in the submission queue.
    pub waiting: WakerQueue,
    /// How often a ring was processed.
    pub rounds: usize,
    /// How many answers were taken in.
    pub completed: usize,
}

impl<T> Reactor<T> {
    /// Nothing on the heap, nobody waiting, nothing counted.
    pub fn new() -> (reactor: Self)
        ensures
            reactor.heap.wf(),
            reactor.heap@ == Map::<u64, KernelOwnedOnHeap<T>>::empty(),
            reactor.waiting@ == Seq::<u64>::empty(),
            reactor.rounds == 0,
            reactor.completed == 0,
    {
        Reactor { heap: KernelHeap::new(), waiting: WakerQueue::new(), rounds: 0, completed: 0 }
    }
}

/// Takes in the kernel's answer to the operation that `user_data` names, gives the kernel's handle
/// back, and returns the waker to wake. The lock on the operation's state is gone by then.
///
/// Call this for each completion queue entry received.
pub fn set_result<T>(heap: &mut KernelHeap<T>, user_data: u64, result: i32) -> (waker: u64)
    requires
        old(heap).wf(),
        pending(old(heap)@, user_data),
    ensures
        final(heap).wf(),
        final(heap)@ == completed(old(heap)@, user_data, result),
        old(heap)@[user_data].header.state == (CompletionState::InProgress { waker }),
{
    take_answer(heap, Completion { user_data, result }).0
}

/// [`set_result`], returning also the object, where the kernel's handle to it was the last, so
/// that the caller says when its payload is dropped.
pub fn take_answer<T>(heap: &mut KernelHeap<T>, completion: Completion) -> (answer: (
    u64,
    Option<KernelOwnedOnHeap<T>>,
))
    requires
        old(heap).wf(),
        pending(old(heap)@, completion.user_data),
    ensures
        final(heap).wf(),
        final(heap)@ == completed(old(heap)@, completion.user_data, completion.result),
        old(heap)@[completion.user_data].header.state == (CompletionState::InProgress {
            waker: answer.0,
        }),
        answer.1 == freed_by(old(heap)@, completion),
{
    let (previous, freed) = record(heap, completion);
    match previous {
        CompletionState::InProgress { waker } => (waker, freed),
        _ => vstd::pervasive::unreached(),
    }
}

/// Records an answer, gives the kernel's handle back, and returns the state that the operation was
/// in, and the object, where the handle was the last.
fn record<T>(heap: &mut KernelHeap<T>, completion: Completion) -> (recorded: (
    CompletionState,
    Option<KernelOwnedOnHeap<T>>,
))
    requires
        old(heap).wf(),
        old(heap)@.dom().contains(completion.user_data),
    ensures
        final(heap).wf(),
        final(heap)@ == completed(old(heap)@, completion.user_data, completion.result),
        recorded.0 == old(heap)@[completion.user_data].header.state,
        recorded.1 == freed_by(old(heap)@, completion),
{
    proof {
        heap.lemma_no_object_at_zero();
    }
    let handle = CompletionRef::from_user_data(completion.user_data);
    let state = handle.lock(heap);
    let previous: CompletionState = *state;
    *state = CompletionState::Completed { result: completion.result };
    (previous, handle.reclaim(heap))
}

/// An operation that was submitted and answered has the handles and the data that it had before,
/// and the answer. Every other operation is as it was.
pub proof fn law_submit_then_complete<T>(
    objects: Map<u64, KernelOwnedOnHeap<T>>,
    addr: u64,
    waker: u64,
    result: i32,
)
    requires
        objects.dom().contains(addr),
        objects[addr].header.ref_count != 0,
    ensures
        pending(submitted(objects, addr, waker), addr),
        completed(submitted(objects, addr, waker), addr, result) == objects.insert(
            addr,
            objects[addr].in_state(CompletionState::Completed { result }),
        ),
{
    assert(completed(submitted(objects, addr, waker), addr, result) =~= objects.insert(
        addr,
        objects[addr].in_state(CompletionState::Completed { result }),
    ));
}

/// No waiting task is lost, woken twice or overtaken when a ring is processed: those that are
/// woken, followed by those that still wait, are the ones that waited.
pub proof fn law_processing_keeps_every_waker(waiting: Seq<u64>)
    ensures
        waiting.take(unparked(waiting.len())) + waiting.skip(unparked(waiting.len())) == waiting,
        unparked(waiting.len()) <= NR_CPU * NR_CPU,
        waiting.len() > 0 ==> unparked(waiting.len()) > 0,
{
    let count = unparked(waiting.len());
    assert(waiting.take(count) + waiting.skip(count) =~= waiting);
}

/// What each answer does, whatever the others are: the operation that it names is completed and
/// loses the kernel's handle, or is gone if that was the last one; an operation that no answer
/// names stays as it is.
pub proof fn law_completions_pointwise<T>(
    objects: Map<u64, KernelOwnedOnHeap<T>>,
    completions: Seq<Completion>,
)
    requires
        answerable(objects, completions),
    ensures
        forall|i: int|
            0 <= i < completions.len() ==> settled(
                objects,
                #[trigger] completions[i],
                after_completions(objects, completions),
            ),
        forall|addr: u64|
            !is_answered(completions, addr) ==> (#[trigger] after_completions(
                objects,
                completions,
            ).dom().contains(addr) <==> objects.dom().contains(addr)),
        forall|addr: u64|
            !is_answered(completions, addr) && objects.dom().contains(addr)
                ==> #[trigger] after_completions(objects, completions)[addr] == objects[addr],
    decreases completions.len(),
{
    if completions.len() > 0 {
        let init = completions.drop_last();
        assert(forall|i: int| 0 <= i < init.len() ==> #[trigger] init[i] == completions[i]);
        law_completions_pointwise(objects, init);
        let before = after_completions(objects, init);
        let last = completions.last();
        assert(last == completions[completions.len() - 1]);
        assert(!is_answered(init, last.user_data));
        assert(before.dom().contains(last.user_data));
        assert(before[last.user_data] == objects[last.user_data]);
        assert forall|addr: u64| !is_answered(completions, addr) implies !is_answered(init, addr)
            && addr != last.user_data by {
            if is_answered(init, addr) {
                let i = choose|i: int|
                    0 <= i < init.len() && (#[trigger] init[i]).user_data == addr;
                assert(completions[i].user_data == addr);
            }
        }
        let after = after_completions(objects, completions);
        assert forall|i: int| 0 <= i < completions.len() implies settled(
            objects,
            #[trigger] completions[i],
            after,
        ) by {
            if i < init.len() {
                assert(settled(objects, init[i], before));
                assert(completions[i].user_data != last.user_data);
            }
        }
    }
}

/// Answers may be taken in one batch or in two: the outcome is the same.
pub proof fn law_batches_compose<T>(
    objects: Map<u64, KernelOwnedOnHeap<T>>,
    first: Seq<Completion>,
    second: Seq<Completion>,
)
    ensures
        after_completions(objects, first + second) == after_completions(
            after_completions(objects, first),
            second,
        ),
    decreases second.len(),
{
    if second.len() == 0 {
        assert(first + second =~= first);
    } else {
        law_batches_compose(objects, first, second.drop_last());
        assert((first + second).drop_last() =~= first + second.drop_last());
        assert((first + second).last() == second.last());
    }
}

/// How many of `completions`, from the first on, [`process_uring`] can take in.
pub fn answerable_count<T>(heap: &KernelHeap<T>, completions: &Vec<Completion>) -> (count: usize)
    ensures
        count <= completions@.len(),
        answerable(heap@, completions@.take(count as int)),
        count < completions@.len() ==> !answerable(heap@, completions@.take(count + 1)),
        count == completions@.len() <==> answerable(heap@, completions@),
{
    let mut seen: HashSet<u64> = HashSet::new();
    let mut i: usize = 0;
    while i < completions.len()
        invariant
            i <= completions@.len(),
            answerable(heap@, completions@.take(i as int)),
            forall|addr: u64| #[trigger]
                seen@.contains(addr) <==> exists|j: int|
                    0 <= j < i && (#[trigger] completions@[j]).user_data == addr,
        decreases completions@.len() - i,
    {
        let addr: u64 = completions[i].user_data;
        let ghost next = completions@.take(i + 1);
        assert(next[i as int].user_data == addr);
        let waits: bool = match heap.get(addr) {
            Some(object) => match object.header.state {
                CompletionState::InProgress { .. } => true,
                _ => false,
            },
            None => false,
        };
        if !waits {
            assert(!pending(heap@, next[i as int].user_data));
            assert(!pending(heap@, completions@[i as int].user_data));
            return i;
        }
        if !seen.insert(addr) {
            proof {
                let j = choose|j: int|
                    0 <= j < i && (#[trigger] completions@[j]).user_data == addr;
                assert(next[j].user_data == next[i as int].user_data);
                assert(completions@[j].user_data == completions@[i as int].user_data);
            }
            return i;
        }
        i += 1;
    }
    assert(completions@.take(i as int) =~= completions@);
    i
}

/// What came of the answers that a ring had ready.
pub struct Round<T> {
    /// The wakers to wake, in order.
    pub woken: Vec<u64>,
    /// The objects that nobody has a handle to any more.
    pub freed: Vec<KernelOwnedOnHeap<T>>,
    /// How many of the answers were waited for, from the first on.
    pub answered: usize,
}

/// Takes in the first `count` of `completions`, all of which are waited for, and counts them.
fn take_answers<T>(reactor: &mut Reactor<T>, completions: &Vec<Completion>, count: usize) -> (round:
    Round<T>)
    requires
        old(reactor).heap.wf(),
        count <= completions@.len(),
        answerable(old(reactor).heap@, completions@.take(count as int)),
    ensures
        final(reactor).heap.wf(),
        final(reactor).heap@ == after_completions(
            old(reactor).heap@,
            completions@.take(count as int),
        ),
        round.woken@ == completion_wakers(old(reactor).heap@, completions@.take(count as int)),
        round.freed@ == all_freed(old(reactor).heap@, completions@.take(count as int)),
        round.answered == count,
        final(reactor).waiting@ == old(reactor).waiting@,
        final(reactor).rounds == counted(old(reactor).rounds, 1),
        final(reactor).completed == counted(old(reactor).completed, count as int),
{
    reactor.rounds = reactor.rounds.wrapping_add(1);
    let mut woken: Vec<u64> = Vec::new();
    let mut freed: Vec<KernelOwnedOnHeap<T>> = Vec::new();
    let ghost before = reactor.heap@;
    let ghost answers = completions@.take(count as int);
    let mut i: usize = 0;
    while i < count
        invariant
            i <= count <= completions@.len(),
            answers == completions@.take(count as int),
            reactor.heap.wf(),
            answerable(before, answers),
            reactor.heap@ == after_completions(before, answers.take(i as int)),
            woken@ == completion_wakers(before, answers).take(i as int),
            freed@ == all_freed(before, answers.take(i as int)),
            reactor.waiting@ == old(reactor).waiting@,
            reactor.rounds == counted(old(reactor).rounds, 1),
            reactor.completed == counted(old(reactor).completed, i as int),
        decreases count - i,
    {
        let completion: Completion = completions[i];
        let ghost done = answers.take(i as int);
        proof {
            assert(completion == answers[i as int]);
            assert(forall|j: int| 0 <= j < done.len() ==> #[trigger] done[j] == answers[j]);
            law_completions_pointwise(before, done);
            assert(!is_answered(done, completion.user_data));
            assert(reactor.heap@.dom().contains(completion.user_data));
            assert(answers.take(i + 1).drop_last() =~= done);
            assert(answers.take(i + 1).last() == completion);
        }
        reactor.completed = reactor.completed.wrapping_add(1);
        let (waker, object) = take_answer(&mut reactor.heap, completion);
        woken.push(waker);
        if let Some(object) = object {
            freed.push(object);
        }
        assert(woken@ =~= completion_wakers(before, answers).take(i + 1));
        i += 1;
    }
    assert(answers.take(i as int) =~= answers);
    assert(woken@ =~= completion_wakers(before, answers));
    Round { woken, freed, answered: count }
}

/// Takes in an answer that is not waited for, and counts it.
fn take_stray<T>(reactor: &mut Reactor<T>, stray: Completion) -> (freed: Option<
    KernelOwnedOnHeap<T>,
>)
    requires
        old(reactor).heap.wf(),
    ensures
        final(reactor).heap.wf(),
        final(reactor).heap@ == after_stray(old(reactor).heap@, stray),
        freed == freed_by_stray(old(reactor).heap@, stray),
        final(reactor).waiting@ == old(reactor).waiting@,
        final(reactor).rounds == old(reactor).rounds,
        final(reactor).completed == counted(old(reactor).completed, 1),
{
    reactor.completed = reactor.completed.wrapping_add(1);
    if reactor.heap.get(stray.user_data).is_some() {
        record(&mut reactor.heap, stray).1
    } else {
        None
    }
}

/// Takes those that have waited longest off `waiting`, and adds them to `woken`.
fn unpark(waiting: &mut WakerQueue, woken: &mut Vec<u64>)
    ensures
        final(woken)@ == old(woken)@ + old(waiting)@.take(unparked(old(waiting)@.len())),
        final(waiting)@ == old(waiting)@.skip(unparked(old(waiting)@.len())),
{
    let ghost answered = woken@;
    let ghost queue = waiting@;
    let max_size: usize = NR_CPU * NR_CPU;
    let mut count: usize = 0;
    while count < max_size
        invariant_except_break
            count <= max_size,
            max_size == NR_CPU * NR_CPU,
            count <= queue.len(),
            woken@ == answered + queue.take(count as int),
            waiting@ == queue.skip(count as int),
        ensures
            woken@ == answered + queue.take(unparked(queue.len())),
            waiting@ == queue.skip(unparked(queue.len())),
        decreases max_size - count,
    {
        match waiting.pop() {
            Some(waker) => {
                woken.push(waker);
                count += 1;
                assert(woken@ =~= answered + queue.take(count as int));
                assert(waiting@ =~= queue.skip(count as int));
            },
            None => {
                break;
            },
        }
    }
}

/// Takes in the answers that a ring has ready, and returns the wakers to wake, in order: those
/// that wait for the answers, then those that have waited longest for room in the submission
/// queue.
pub fn process_uring<T>(reactor: &mut Reactor<T>, completions: &Vec<Completion>) -> (woken: Vec<
    u64,
>)
    requires
        old(reactor).heap.wf(),
        answerable(old(reactor).heap@, completions@),
    ensures
        final(reactor).heap.wf(),
        final(reactor).heap@ == after_completions(old(reactor).heap@, completions@),
        woken@ == completion_wakers(old(reactor).heap@, completions@) + old(
            reactor,
        ).waiting@.take(unparked(old(reactor).waiting@.len())),
        final(reactor).waiting@ == old(reactor).waiting@.skip(
            unparked(old(reactor).waiting@.len()),
        ),
        final(reactor).rounds == counted(old(reactor).rounds, 1),
        final(reactor).completed == counted(old(reactor).completed, completions@.len() as int),
{
    assert(completions@.take(completions@.len() as int) =~= completions@);
    let mut round = take_answers(reactor, completions, completions.len());
    unpark(&mut reactor.waiting, &mut round.woken);
    round.woken
}

/// [`process_uring`] for answers of any kind: it stops at the first that is not waited for, when
/// that has been taken in, and wakes nobody who has waited for room then. A caller sees this from
/// [`Round::answered`].
pub fn process_round<T>(reactor: &mut Reactor<T>, completions: &Vec<Completion>) -> (round: Round<
    T,
>)
    requires
        old(reactor).heap.wf(),
    ensures
        final(reactor).heap.wf(),
        round.answered <= completions@.len(),
        answerable(old(reactor).heap@, completions@.take(round.answered as int)),
        round.answered < completions@.len() ==> !answerable(
            old(reactor).heap@,
            completions@.take(round.answered + 1),
        ),
        round.answered == completions@.len() <==> answerable(old(reactor).heap@, completions@),
        final(reactor).rounds == counted(old(reactor).rounds, 1),
        if round.answered == completions@.len() {
            &&& final(reactor).heap@ == after_completions(old(reactor).heap@, completions@)
            &&& round.woken@ == completion_wakers(old(reactor).heap@, completions@) + old(
                reactor,
            ).waiting@.take(unparked(old(reactor).waiting@.len()))
            &&& round.freed@ == all_freed(old(reactor).heap@, completions@)
            &&& final(reactor).waiting@ == old(reactor).waiting@.skip(
                unparked(old(reactor).waiting@.len()),
            )
            &&& final(reactor).completed == counted(
                old(reactor).completed,
                completions@.len() as int,
            )
        } else {
            let answers = completions@.take(round.answered as int);
            let stray = completions@[round.answered as int];
            let answered = after_completions(old(reactor).heap@, answers);
            &&& final(reactor).heap@ == after_stray(answered, stray)
            &&& round.woken@ == completion_wakers(old(reactor).heap@, answers)
            &&& round.freed@ == with_freed(
                all_freed(old(reactor).heap@, answers),
                freed_by_stray(answered, stray),
            )
            &&& final(reactor).waiting@ == old(reactor).waiting@
            &&& final(reactor).completed == counted(old(reactor).completed, round.answered + 1)
        },
{
    let count: usize = answerable_count(&reactor.heap, completions);
    let mut round = take_answers(reactor, completions, count);
    if count < completions.len() {
        if let Some(object) = take_stray(reactor, completions[count]) {
            round.freed.push(object);
        }
    } else {
        assert(completions@.take(count as int) =~= completions@);
        unpark(&mut reactor.waiting, &mut round.woken);
    }
    round
}

} // verus!
