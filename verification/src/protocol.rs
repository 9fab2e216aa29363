//! The life of an operation, from its first poll to the end of its state.
//!
//! A [`System`] is a set of operations over the objects and the waiting queue that the library's
//! functions work on. Tasks keep to one rule: an operation is polled when it begins, and after that
//! only when the waker of its last poll was woken. Whatever else happens, in whatever order, a task
//! that may run can be polled, an answer of the kernel finds the operation that it is for, and no
//! object outlives its operation.
//!
//! That no operation is handed to the kernel twice does not even need that rule.

use vstd::prelude::*;

use crate::future::{polled, submitted, CompletionState};
use crate::owned::{released, KernelOwnedOnHeap};
use crate::reactor::{
    after_completions, answerable, completed, completion_wakers, pending, unparked, Completion,
};

verus! {

/// What can happen to one operation by way of its future and the kernel.
pub enum OpEvent {
    /// Its future is polled. `takes_data` says whether the future moves the data out when it finds
    /// an answer that is no error.
    Poll { ring_full: bool, waker: u64, takes_data: bool },
    /// The kernel answers.
    Answer { result: i32 },
}

/// The objects after `event` happened to the operation at `addr`.
pub open spec fn after_op_event<T>(
    objects: Map<u64, KernelOwnedOnHeap<T>>,
    addr: u64,
    event: OpEvent,
) -> Map<u64, KernelOwnedOnHeap<T>> {
    match event {
        OpEvent::Poll { ring_full, waker, takes_data } => polled(
            objects,
            addr,
            ring_full,
            waker,
            takes_data,
        ),
        OpEvent::Answer { result } => completed(objects, addr, result),
    }
}

/// Whether `event` can happen to the operation at `addr`: no poll finds it in progress, and every
/// answer does.
pub open spec fn op_event_enabled<T>(
    objects: Map<u64, KernelOwnedOnHeap<T>>,
    addr: u64,
    event: OpEvent,
) -> bool {
    &&& objects.dom().contains(addr)
    &&& event is Answer <==> objects[addr].header.state is InProgress
}

/// Whether `event` hands the operation at `addr` to the kernel.
pub open spec fn is_submission<T>(
    objects: Map<u64, KernelOwnedOnHeap<T>>,
    addr: u64,
    event: OpEvent,
) -> bool {
    event matches OpEvent::Poll { ring_full, .. } && !ring_full
        && objects[addr].header.state is Unsubmitted
}

/// The objects after `events` happened to the operation at `addr`, in order.
pub open spec fn after_op_events<T>(
    objects: Map<u64, KernelOwnedOnHeap<T>>,
    addr: u64,
    events: Seq<OpEvent>,
) -> Map<u64, KernelOwnedOnHeap<T>>
    decreases events.len(),
{
    if events.len() == 0 {
        objects
    } else {
        after_op_event(after_op_events(objects, addr, events.drop_last()), addr, events.last())
    }
}

/// Whether `events` can happen to the operation at `addr`, in order.
pub open spec fn op_events_enabled<T>(
    objects: Map<u64, KernelOwnedOnHeap<T>>,
    addr: u64,
    events: Seq<OpEvent>,
) -> bool
    decreases events.len(),
{
    events.len() > 0 ==> op_events_enabled(objects, addr, events.drop_last()) && op_event_enabled(
        after_op_events(objects, addr, events.drop_last()),
        addr,
        events.last(),
    )
}

/// The entry of an operation is never built twice: of any polls and answers, whether the ring was
/// full or not and whichever wakers the polls brought, at most one hands the operation to the
/// kernel.
pub proof fn law_never_built_twice<T>(
    objects: Map<u64, KernelOwnedOnHeap<T>>,
    addr: u64,
    events: Seq<OpEvent>,
    i: int,
    j: int,
)
    requires
        op_events_enabled(objects, addr, events),
        0 <= i < j < events.len(),
        is_submission(after_op_events(objects, addr, events.take(i)), addr, events[i]),
    ensures
        !is_submission(after_op_events(objects, addr, events.take(j)), addr, events[j]),
    decreases events.len(),
{
    let earlier = events.drop_last();
    assert(earlier.take(i) =~= events.take(i));
    assert(earlier.take(j) =~= events.take(j));
    assert(earlier[i] == events[i]);
    if j < events.len() - 1 {
        assert(earlier[j] == events[j]);
        law_never_built_twice(objects, addr, earlier, i, j);
    } else {
        assert(events.take(j) =~= earlier);
        lemma_built_stays_built(objects, addr, earlier, i);
    }
}

/// After its submission an operation is in progress, answered or gone.
proof fn lemma_built_stays_built<T>(
    objects: Map<u64, KernelOwnedOnHeap<T>>,
    addr: u64,
    events: Seq<OpEvent>,
    i: int,
)
    requires
        op_events_enabled(objects, addr, events),
        0 <= i < events.len(),
        is_submission(after_op_events(objects, addr, events.take(i)), addr, events[i]),
    ensures
        after_op_events(objects, addr, events).dom().contains(addr) ==> !(after_op_events(
            objects,
            addr,
            events,
        )[addr].header.state is Unsubmitted),
    decreases events.len(),
{
    let earlier = events.drop_last();
    if i < events.len() - 1 {
        assert(earlier.take(i) =~= events.take(i));
        assert(earlier[i] == events[i]);
        lemma_built_stays_built(objects, addr, earlier, i);
    } else {
        assert(events.take(i) =~= earlier);
    }
}

/// Where an operation is.
pub enum Phase {
    /// It was begun, or the waker of its last poll was woken: it may be polled.
    Runnable,
    /// It waits for room in the submission queue; its last poll brought `waker`.
    Parked { waker: u64 },
    /// The kernel works on it; its last poll brought `waker`.
    InKernel { waker: u64 },
    /// The kernel works on it, and nobody waits for the answer any more.
    Abandoned { waker: u64 },
    /// It is over.
    Gone,
}

/// Operations, which are numbered, and their states.
pub struct System<T> {
    /// The objects on the heap.
    pub objects: Map<u64, KernelOwnedOnHeap<T>>,
    /// The wakers that wait for room in the submission queue.
    pub waiting: Seq<u64>,
    /// The address of each operation's state.
    pub addrs: Map<u64, u64>,
    pub phases: Map<u64, Phase>,
}

/// What can happen next.
pub enum Event<T> {
    /// An operation on `data` begins, with its state at `addr`.
    Start { op: u64, addr: u64, data: T },
    /// A poll that brings `waker` finds the submission queue full.
    Park { op: u64, waker: u64 },
    /// A poll that brings `waker` hands the operation to the kernel.
    Submit { op: u64, waker: u64 },
    /// The waker that has waited longest for room is woken.
    Unpark,
    /// The kernel answers.
    Complete { op: u64, result: i32 },
    /// A poll finds the answer, and the future ends.
    Finish { op: u64 },
    /// The future ends before the answer was found.
    Abandon { op: u64 },
}

/// The phases after `waker` was woken: what was parked with it may run.
pub open spec fn unpark(phases: Map<u64, Phase>, waker: u64) -> Map<u64, Phase> {
    phases.map_values(
        |phase: Phase|
            if phase == (Phase::Parked { waker }) {
                Phase::Runnable
            } else {
                phase
            },
    )
}

impl<T> System<T> {
    /// No operation yet.
    pub open spec fn initial() -> Self {
        System {
            objects: Map::empty(),
            waiting: Seq::empty(),
            addrs: Map::empty(),
            phases: Map::empty(),
        }
    }

    /// The state of the operation `op`.
    pub open spec fn object(self, op: u64) -> KernelOwnedOnHeap<T> {
        self.objects[self.addrs[op]]
    }

    /// Whether there is an operation `op` that is not over.
    pub open spec fn live(self, op: u64) -> bool {
        self.phases.dom().contains(op) && !(self.phases[op] is Gone)
    }

    /// Whether the state of the operation `op`, which is not over, is at `addr`.
    pub open spec fn owns(self, op: u64, addr: u64) -> bool {
        self.live(op) && self.addrs[op] == addr
    }

    /// Whether the kernel has a handle to the operation `op`.
    pub open spec fn in_kernel(self, op: u64) -> bool {
        self.phases.dom().contains(op) && (self.phases[op] is InKernel
            || self.phases[op] is Abandoned)
    }

    /// The waker that the last poll of the operation `op`, which the kernel has, brought.
    pub open spec fn submitter(self, op: u64) -> u64 {
        match self.phases[op] {
            Phase::InKernel { waker } => waker,
            Phase::Abandoned { waker } => waker,
            _ => 0,
        }
    }

    /// Whether the kernel has the operations `ops`, all of them different, and `completions` are
    /// its answers to them.
    pub open spec fn answered_by(self, ops: Seq<u64>, completions: Seq<Completion>) -> bool {
        &&& ops.len() == completions.len()
        &&& forall|i: int|
            #![trigger ops[i]]
            #![trigger completions[i]]
            0 <= i < ops.len() ==> self.in_kernel(ops[i]) && completions[i].user_data
                == self.addrs[ops[i]]
        &&& forall|i: int, j: int| 0 <= i < j < ops.len() ==> ops[i] != ops[j]
    }

    /// Whether the operation `op` may be polled.
    pub open spec fn runnable(self, op: u64) -> bool {
        self.phases.dom().contains(op) && self.phases[op] is Runnable
    }

    /// Whether the operation `op` waits for room in the submission queue, with `waker`.
    pub open spec fn parked(self, op: u64, waker: u64) -> bool {
        self.phases.dom().contains(op) && self.phases[op] == (Phase::Parked { waker })
    }

    /// Whether `event` can happen.
    pub open spec fn enabled(self, event: Event<T>) -> bool {
        match event {
            Event::Start { op, addr, data } => !self.phases.dom().contains(op)
                && !self.objects.dom().contains(addr),
            Event::Park { op, waker } => self.runnable(op) && self.object(
                op,
            ).header.state is Unsubmitted,
            Event::Submit { op, waker } => self.runnable(op) && self.object(
                op,
            ).header.state is Unsubmitted,
            Event::Unpark => self.waiting.len() > 0,
            Event::Complete { op, result } => self.in_kernel(op) && result != i32::MIN,
            Event::Finish { op } => self.runnable(op) && self.object(
                op,
            ).header.state is Completed,
            Event::Abandon { op } => self.live(op) && !(self.phases[op] is Abandoned),
        }
    }

    /// The system after `event`.
    pub open spec fn after(self, event: Event<T>) -> Self {
        match event {
            Event::Start { op, addr, data } => System {
                objects: self.objects.insert(addr, KernelOwnedOnHeap::fresh(data)),
                addrs: self.addrs.insert(op, addr),
                phases: self.phases.insert(op, Phase::Runnable),
                ..self
            },
            Event::Park { op, waker } => System {
                waiting: self.waiting.push(waker),
                phases: self.phases.insert(op, Phase::Parked { waker }),
                ..self
            },
            Event::Submit { op, waker } => System {
                objects: submitted(self.objects, self.addrs[op], waker),
                phases: self.phases.insert(op, Phase::InKernel { waker }),
                ..self
            },
            Event::Unpark => System {
                waiting: self.waiting.drop_first(),
                phases: unpark(self.phases, self.waiting[0]),
                ..self
            },
            Event::Complete { op, result } => System {
                objects: completed(self.objects, self.addrs[op], result),
                phases: self.phases.insert(
                    op,
                    if self.phases[op] is InKernel {
                        Phase::Runnable
                    } else {
                        Phase::Gone
                    },
                ),
                ..self
            },
            Event::Finish { op } => System {
                objects: released(self.objects, self.addrs[op]),
                phases: self.phases.insert(op, Phase::Gone),
                ..self
            },
            Event::Abandon { op } => System {
                objects: released(self.objects, self.addrs[op]),
                phases: self.phases.insert(
                    op,
                    match self.phases[op] {
                        Phase::InKernel { waker } => Phase::Abandoned { waker },
                        _ => Phase::Gone,
                    },
                ),
                ..self
            },
        }
    }

    /// The system after `events`, in order.
    pub open spec fn after_all(self, events: Seq<Event<T>>) -> Self
        decreases events.len(),
    {
        if events.len() == 0 {
            self
        } else {
            self.after_all(events.drop_last()).after(events.last())
        }
    }

    /// Whether `events` can happen, in order.
    pub open spec fn all_enabled(self, events: Seq<Event<T>>) -> bool
        decreases events.len(),
    {
        events.len() > 0 ==> self.all_enabled(events.drop_last()) && self.after_all(
            events.drop_last(),
        ).enabled(events.last())
    }

    /// Whether the state of the operation `op` fits its phase.
    pub open spec fn fits(self, op: u64) -> bool {
        let object = self.object(op);
        &&& self.objects.dom().contains(self.addrs[op])
        &&& object.data is Some
        &&& match self.phases[op] {
            Phase::Runnable => object.header.ref_count == 1 && match object.header.state {
                CompletionState::Unsubmitted => true,
                CompletionState::InProgress { .. } => false,
                CompletionState::Completed { result } => result != i32::MIN,
            },
            Phase::Parked { waker } => object.header.ref_count == 1
                && object.header.state is Unsubmitted && self.waiting.contains(waker),
            Phase::InKernel { waker } => object.header.ref_count == 2 && object.header.state == (
            CompletionState::InProgress { waker }),
            Phase::Abandoned { waker } => object.header.ref_count == 1 && object.header.state == (
            CompletionState::InProgress { waker }),
            Phase::Gone => true,
        }
    }

    /// Whether every object is the state of an operation that is not over.
    pub open spec fn no_strays(self) -> bool {
        forall|addr: u64| #[trigger]
            self.objects.dom().contains(addr) ==> exists|op: u64| #[trigger] self.owns(op, addr)
    }

    /// What holds of every state that a system gets into.
    pub open spec fn inv(self) -> bool {
        &&& forall|op: u64| #[trigger] self.live(op) ==> self.fits(op)
        &&& forall|one: u64, other: u64|
            #![trigger self.live(one), self.live(other)]
            self.live(one) && self.live(other) && one != other ==> self.addrs[one]
                != self.addrs[other]
        &&& self.no_strays()
    }
}

/// Where no object appears, and no operation ends whose object stays, no object goes astray.
proof fn lemma_no_strays_kept<T>(before: System<T>, after: System<T>)
    requires
        before.no_strays(),
        after.objects.dom().subset_of(before.objects.dom()),
        forall|op: u64, addr: u64| #[trigger]
            before.owns(op, addr) && after.objects.dom().contains(addr) ==> after.owns(op, addr),
    ensures
        after.no_strays(),
{
    assert forall|addr: u64| #[trigger] after.objects.dom().contains(addr) implies exists|op: u64|
        #[trigger] after.owns(op, addr) by {
        assert(before.objects.dom().contains(addr));
        let op = choose|op: u64| #[trigger] before.owns(op, addr);
        assert(after.owns(op, addr));
    }
}

/// Every event keeps the invariant.
pub proof fn law_events_keep_the_invariant<T>(system: System<T>, event: Event<T>)
    requires
        system.inv(),
        system.enabled(event),
    ensures
        system.after(event).inv(),
{
    let post = system.after(event);
    match event {
        Event::Start { op, addr, data } => {
            assert(!system.live(op));
            assert(post.live(op));
            assert forall|other: u64| other != op implies #[trigger] post.live(other)
                == system.live(other) by {}
            assert forall|a: u64| #[trigger] post.objects.dom().contains(a) implies exists|o: u64|
                #[trigger] post.owns(o, a) by {
                if a == addr {
                    assert(post.owns(op, a));
                } else {
                    assert(system.objects.dom().contains(a));
                    let o = choose|o: u64| #[trigger] system.owns(o, a);
                    assert(post.owns(o, a));
                }
            }
        },
        Event::Park { op, waker } => {
            assert(system.live(op));
            assert(post.waiting[post.waiting.len() - 1] == waker);
            assert forall|other: u64| #[trigger] post.live(other) == system.live(other) by {}
            assert forall|w: u64| system.waiting.contains(w) implies post.waiting.contains(w) by {
                let i = choose|i: int| 0 <= i < system.waiting.len() && system.waiting[i] == w;
                assert(post.waiting[i] == w);
            }
            lemma_no_strays_kept(system, post);
        },
        Event::Submit { op, waker } => {
            assert(system.live(op));
            assert forall|other: u64| #[trigger] post.live(other) == system.live(other) by {}
            lemma_no_strays_kept(system, post);
        },
        Event::Unpark => {
            let first = system.waiting[0];
            assert forall|other: u64| #[trigger] post.live(other) == system.live(other) by {}
            assert forall|w: u64| system.waiting.contains(w) && w != first implies
                post.waiting.contains(w) by {
                let i = choose|i: int| 0 <= i < system.waiting.len() && system.waiting[i] == w;
                assert(post.waiting[i - 1] == w);
            }
            lemma_no_strays_kept(system, post);
        },
        Event::Complete { op, result } => {
            assert(system.live(op));
            assert forall|other: u64| other != op implies #[trigger] post.live(other)
                == system.live(other) by {}
            lemma_no_strays_kept(system, post);
        },
        Event::Finish { op } => {
            assert(system.live(op));
            assert forall|other: u64| other != op implies #[trigger] post.live(other)
                == system.live(other) by {}
            lemma_no_strays_kept(system, post);
        },
        Event::Abandon { op } => {
            assert(system.live(op));
            assert forall|other: u64| other != op implies #[trigger] post.live(other)
                == system.live(other) by {}
            lemma_no_strays_kept(system, post);
        },
    }
}

/// The invariant holds after any events, in any order.
pub proof fn law_invariant_always_holds<T>(events: Seq<Event<T>>)
    requires
        System::initial().all_enabled(events),
    ensures
        System::initial().after_all(events).inv(),
    decreases events.len(),
{
    if events.len() > 0 {
        law_invariant_always_holds(events.drop_last());
        law_events_keep_the_invariant(
            System::initial().after_all(events.drop_last()),
            events.last(),
        );
    }
}

/// An operation that may run can be polled: its state is on the heap, is not in progress, and has
/// its data; an answer that is there is one whose error number exists.
pub proof fn law_runnable_can_be_polled<T>(system: System<T>, op: u64)
    requires
        system.inv(),
        system.runnable(op),
    ensures
        system.objects.dom().contains(system.addrs[op]),
        system.object(op).data is Some,
        !(system.object(op).header.state is InProgress),
        system.object(op).header.state matches CompletionState::Completed { result } ==> result
            != i32::MIN,
{
    assert(system.live(op));
}

/// While the kernel has a handle to an operation, its object is on the heap with its data and
/// waits for the answer, on behalf of the waker that its last poll brought. This holds even if the
/// future is gone.
pub proof fn law_kernel_handles_are_good<T>(system: System<T>, op: u64)
    requires
        system.inv(),
        system.in_kernel(op),
    ensures
        pending(system.objects, system.addrs[op]),
        system.object(op).header.state == (CompletionState::InProgress {
            waker: system.submitter(op),
        }),
        system.object(op).data is Some,
{
    assert(system.live(op));
}

/// Answers to operations that the kernel has, one each, are answers that a ring can take in, and
/// the wakers that it returns for them are those that the operations' last polls brought.
pub proof fn law_kernel_answers_can_be_processed<T>(
    system: System<T>,
    ops: Seq<u64>,
    completions: Seq<Completion>,
)
    requires
        system.inv(),
        system.answered_by(ops, completions),
    ensures
        answerable(system.objects, completions),
        completion_wakers(system.objects, completions) == ops.map_values(
            |op: u64| system.submitter(op),
        ),
{
    assert forall|i: int| 0 <= i < completions.len() implies pending(
        system.objects,
        (#[trigger] completions[i]).user_data,
    ) && completion_wakers(system.objects, completions)[i] == system.submitter(ops[i]) by {
        law_kernel_handles_are_good(system, ops[i]);
    }
    assert forall|i: int, j: int| 0 <= i < j < completions.len() implies (
    #[trigger] completions[i]).user_data != (#[trigger] completions[j]).user_data by {
        assert(system.live(ops[i]) && system.live(ops[j]));
    }
    assert(completion_wakers(system.objects, completions) =~= ops.map_values(
        |op: u64| system.submitter(op),
    ));
}

/// The events in which the kernel answers the operations `ops`.
pub open spec fn answer_events<T>(ops: Seq<u64>, completions: Seq<Completion>) -> Seq<Event<T>> {
    Seq::new(
        completions.len(),
        |i: int| Event::Complete { op: ops[i], result: completions[i].result },
    )
}

/// Taking in a batch of answers is the same as the answers coming one after another, in their
/// order.
pub proof fn law_batch_is_a_series_of_answers<T>(
    system: System<T>,
    ops: Seq<u64>,
    completions: Seq<Completion>,
)
    requires
        system.inv(),
        system.answered_by(ops, completions),
        forall|i: int|
            0 <= i < completions.len() ==> (#[trigger] completions[i]).result != i32::MIN,
    ensures
        system.all_enabled(answer_events(ops, completions)),
        system.after_all(answer_events(ops, completions)).objects == after_completions(
            system.objects,
            completions,
        ),
        system.after_all(answer_events(ops, completions)).waiting == system.waiting,
        system.after_all(answer_events(ops, completions)).addrs == system.addrs,
        forall|op: u64|
            !ops.contains(op) ==> system.after_all(answer_events(ops, completions)).in_kernel(op)
                == #[trigger] system.in_kernel(op),
    decreases completions.len(),
{
    let events = answer_events::<T>(ops, completions);
    if completions.len() > 0 {
        let last = completions.len() - 1;
        let first_ops = ops.drop_last();
        let first = completions.drop_last();
        assert(forall|i: int| 0 <= i < last ==> first[i] == completions[i]);
        assert(forall|i: int| 0 <= i < last ==> first_ops[i] == ops[i]);
        law_batch_is_a_series_of_answers(system, first_ops, first);
        assert(events.drop_last() =~= answer_events::<T>(first_ops, first));
        let before = system.after_all(events.drop_last());
        assert(completions[last].user_data == system.addrs[ops[last]]);
        assert(!first_ops.contains(ops[last]));
        assert(system.in_kernel(ops[last]));
        assert(before.in_kernel(ops[last]));
        assert forall|op: u64| !ops.contains(op) implies system.after_all(events).in_kernel(op)
            == #[trigger] system.in_kernel(op) by {
            assert(ops[last] != op);
            assert(!first_ops.contains(op)) by {
                if first_ops.contains(op) {
                    let i = choose|i: int| 0 <= i < first_ops.len() && first_ops[i] == op;
                    assert(ops[i] == op);
                }
            }
        }
    }
}

/// The events in which the `count` wakers that have waited longest for room are woken.
pub open spec fn unpark_events<T>(count: nat) -> Seq<Event<T>> {
    Seq::new(count, |i: int| Event::Unpark)
}

/// Waking the wakers that have waited longest, as a ring does after it has taken in the answers,
/// is the same as their being woken one after another: the others keep their places, no
/// operation's state changes, and what was parked with one of them may run.
pub proof fn law_waking_is_a_series_of_unparkings<T>(system: System<T>)
    ensures
        system.all_enabled(unpark_events(unparked(system.waiting.len()) as nat)),
        system.after_all(unpark_events(unparked(system.waiting.len()) as nat)).waiting
            == system.waiting.skip(unparked(system.waiting.len())),
        system.after_all(unpark_events(unparked(system.waiting.len()) as nat)).objects
            == system.objects,
        system.after_all(unpark_events(unparked(system.waiting.len()) as nat)).addrs
            == system.addrs,
        forall|op: u64, i: int|
            0 <= i < unparked(system.waiting.len()) && #[trigger] system.parked(
                op,
                system.waiting[i],
            ) ==> system.after_all(
                unpark_events(unparked(system.waiting.len()) as nat),
            ).runnable(op),
{
    lemma_unparkings(system, unparked(system.waiting.len()) as nat);
}

/// What `count` unparkings do to a system in which at least that many wakers wait.
proof fn lemma_unparkings<T>(system: System<T>, count: nat)
    requires
        count <= system.waiting.len(),
    ensures
        system.all_enabled(unpark_events(count)),
        system.after_all(unpark_events(count)).waiting == system.waiting.skip(count as int),
        system.after_all(unpark_events(count)).objects == system.objects,
        system.after_all(unpark_events(count)).addrs == system.addrs,
        forall|op: u64, waker: u64| #[trigger]
            system.parked(op, waker) ==> system.after_all(unpark_events(count)).parked(op, waker)
                || system.after_all(unpark_events(count)).runnable(op),
        forall|op: u64, i: int|
            0 <= i < count && #[trigger] system.parked(op, system.waiting[i]) ==> system.after_all(
                unpark_events(count),
            ).runnable(op),
    decreases count,
{
    let events = unpark_events::<T>(count);
    if count == 0 {
        assert(system.waiting.skip(0) =~= system.waiting);
    } else {
        let fewer = (count - 1) as nat;
        lemma_unparkings(system, fewer);
        assert(events.drop_last() =~= unpark_events::<T>(fewer));
        let before = system.after_all(unpark_events(fewer));
        assert(before.waiting[0] == system.waiting[count - 1]);
        assert(before.waiting.drop_first() =~= system.waiting.skip(count as int));
        assert(system.after_all(events) == before.after(Event::Unpark));
    }
}

/// Whether `event` hands the operation `op` to the kernel.
pub open spec fn submits<T>(event: Event<T>, op: u64) -> bool {
    event matches Event::Submit { op: submitted_op, .. } && submitted_op == op
}

/// An operation is handed to the kernel at most once, whatever happens to the others.
pub proof fn law_submitted_at_most_once<T>(events: Seq<Event<T>>, op: u64, i: int, j: int)
    requires
        System::initial().all_enabled(events),
        0 <= i < j < events.len(),
        submits(events[i], op),
    ensures
        !submits(events[j], op),
    decreases events.len(),
{
    let earlier = events.drop_last();
    assert(earlier[i] == events[i]);
    if j < events.len() - 1 {
        assert(earlier[j] == events[j]);
        law_submitted_at_most_once(earlier, op, i, j);
    } else {
        lemma_past_submission(earlier, op, i);
    }
}

impl<T> System<T> {
    /// Whether there is an operation `op` that will not be submitted any more: the kernel has it
    /// or has answered it, or it is over.
    pub open spec fn past_submission(self, op: u64) -> bool {
        &&& self.phases.dom().contains(op)
        &&& !(self.phases[op] is Parked)
        &&& self.runnable(op) ==> self.object(op).header.state is Completed
    }
}

/// An operation that was handed to the kernel will not be submitted any more.
proof fn lemma_past_submission<T>(events: Seq<Event<T>>, op: u64, i: int)
    requires
        System::initial().all_enabled(events),
        0 <= i < events.len(),
        submits(events[i], op),
    ensures
        System::initial().after_all(events).past_submission(op),
    decreases events.len(),
{
    let earlier = events.drop_last();
    if i < events.len() - 1 {
        assert(earlier[i] == events[i]);
        lemma_past_submission(earlier, op, i);
        law_invariant_always_holds(earlier);
        lemma_events_keep_past_submission(System::initial().after_all(earlier), events.last(), op);
    }
}

/// No event lets an operation be submitted that will not be submitted any more.
proof fn lemma_events_keep_past_submission<T>(system: System<T>, event: Event<T>, op: u64)
    requires
        system.inv(),
        system.enabled(event),
        system.past_submission(op),
    ensures
        system.after(event).past_submission(op),
{
    if system.runnable(op) {
        assert(system.live(op));
        match event {
            Event::Start { .. } => {},
            Event::Unpark => {},
            Event::Park { op: other, .. } => {
                assert(system.live(other));
            },
            Event::Submit { op: other, .. } => {
                assert(system.live(other));
            },
            Event::Complete { op: other, .. } => {
                assert(system.live(other));
            },
            Event::Finish { op: other } => {
                assert(system.live(other));
            },
            Event::Abandon { op: other } => {
                assert(system.live(other));
            },
        }
    } else if system.in_kernel(op) {
        assert(system.live(op));
    }
}

/// An operation that may run has no handle but its future's: when its poll finds the answer it
/// gets the data, and with the future the object goes, whether the data was moved out or not.
pub proof fn law_runnable_owns_its_data<T>(system: System<T>, op: u64)
    requires
        system.inv(),
        system.runnable(op),
    ensures
        system.object(op).header.ref_count == 1,
        released(system.objects, system.addrs[op]) == system.objects.remove(system.addrs[op]),
        released(
            system.objects.insert(system.addrs[op], system.object(op).emptied()),
            system.addrs[op],
        ) == system.objects.remove(system.addrs[op]),
{
    assert(system.live(op));
    let addr = system.addrs[op];
    assert(system.objects.insert(addr, system.object(op).emptied()).remove(addr)
        =~= system.objects.remove(addr));
}

/// When all operations are over no object is left.
pub proof fn law_nothing_leaks<T>(system: System<T>)
    requires
        system.inv(),
        forall|op: u64| !#[trigger] system.live(op),
    ensures
        system.objects == Map::<u64, KernelOwnedOnHeap<T>>::empty(),
{
    assert(system.objects =~= Map::<u64, KernelOwnedOnHeap<T>>::empty()) by {
        assert forall|addr: u64| !#[trigger] system.objects.dom().contains(addr) by {
            if system.objects.dom().contains(addr) {
                let op = choose|op: u64| #[trigger] system.owns(op, addr);
                assert(system.live(op));
            }
        }
    }
}

} // verus!
