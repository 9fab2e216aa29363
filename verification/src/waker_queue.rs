//! Queues of tasks that wait for room in a submission queue.
//!
//! A waker is named by the number under which the executor keeps it.

use crossbeam_queue::SegQueue;
use vstd::prelude::*;

verus! {

/// The unbounded concurrent queue of `crossbeam_queue`.
#[verifier::external_type_specification]
#[verifier::external_body]
#[verifier::reject_recursive_types(T)]
pub struct ExSegQueue<T>(SegQueue<T>);

/// What a `SegQueue` of waker numbers holds, from its head to its tail.
pub uninterp spec fn seg_queue_items(queue: SegQueue<u64>) -> Seq<u64>;

/// `SegQueue::new`: the queue starts out empty.
#[verifier::external_body]
fn seg_queue_new() -> (queue: SegQueue<u64>)
    ensures
        seg_queue_items(queue) == Seq::<u64>::empty(),
{
    SegQueue::new()
}

/// `SegQueue::push`: the value joins the queue at its tail.
#[verifier::external_body]
fn seg_queue_push(queue: &mut SegQueue<u64>, waker: u64)
    ensures
        seg_queue_items(*final(queue)) == seg_queue_items(*old(queue)).push(waker),
{
    queue.push(waker)
}

/// `SegQueue::pop`: the head leaves the queue and is returned; an empty queue yields `None`.
#[verifier::external_body]
fn seg_queue_pop(queue: &mut SegQueue<u64>) -> (waker: Option<u64>)
    ensures
        seg_queue_items(*old(queue)).len() == 0 ==> waker is None && seg_queue_items(*final(queue))
            == seg_queue_items(*old(queue)),
        seg_queue_items(*old(queue)).len() > 0 ==> waker == Some(seg_queue_items(*old(queue))[0])
            && seg_queue_items(*final(queue)) == seg_queue_items(*old(queue)).drop_first(),
{
    queue.pop()
}

/// Wakers in the order in which they are to be woken.
pub struct WakerQueue {
    queue: SegQueue<u64>,
}

impl View for WakerQueue {
    type V = Seq<u64>;

    /// The wakers that wait, the first to be woken first.
    closed spec fn view(&self) -> Seq<u64> {
        seg_queue_items(self.queue)
    }
}

impl WakerQueue {
    /// A queue that nobody waits in.
    pub fn new() -> (queue: Self)
        ensures
            queue@ == Seq::<u64>::empty(),
    {
        WakerQueue { queue: seg_queue_new() }
    }

    /// Puts a waker at the end of the queue.
    pub fn push(&mut self, waker: u64)
        ensures
            final(self)@ == old(self)@.push(waker),
    {
        seg_queue_push(&mut self.queue, waker);
    }

    /// Takes the waker that has waited longest.
    pub fn pop(&mut self) -> (waker: Option<u64>)
        ensures
            old(self)@.len() == 0 ==> waker is None && final(self)@ == old(self)@,
            old(self)@.len() > 0 ==> waker == Some(old(self)@[0]) && final(self)@ == old(
                self,
            )@.drop_first(),
    {
        seg_queue_pop(&mut self.queue)
    }
}

/// One more than the largest machine word.
pub open spec fn word_span() -> int {
    usize::MAX + 1
}

/// A sum or difference of two signed words, wrapped around as atomic counters do.
pub open spec fn wrapped(value: int) -> int {
    if value > isize::MAX {
        value - word_span()
    } else if value < isize::MIN {
        value + word_span()
    } else {
        value
    }
}

/// How many wakers a call of `wake` wakes before the one that ends it: the counter, read as an
/// unsigned word. A negative counter comes to zero only after it has wrapped around.
pub open spec fn quota(to_wake: int) -> int {
    if to_wake >= 0 {
        to_wake
    } else {
        to_wake + word_span()
    }
}

/// How many of `waiting` wakers a call of `wake` wakes.
pub open spec fn wake_count(waiting: int, to_wake: int) -> int {
    if waiting > quota(to_wake) {
        quota(to_wake) + 1
    } else {
        waiting
    }
}

/// The counter that a call of `wake` leaves behind: set anew where the call used it up, counted
/// down by the number of wakers where the queue ran dry first.
pub open spec fn to_wake_after(waiting: int, to_wake: int, free_entries: int, nr_rings: int) -> int {
    if waiting > quota(to_wake) {
        if free_entries <= nr_rings * nr_rings {
            free_entries
        } else {
            nr_rings * nr_rings
        }
    } else if quota(to_wake) - waiting <= isize::MAX {
        quota(to_wake) - waiting
    } else {
        quota(to_wake) - waiting - word_span()
    }
}

/// Queue of wakers to be woken when there is space in the io_uring's submission queues.
pub struct SubmitWaitQueueInner {
    /// Free space among all the rings' submission queues.
    free_entries: isize,
    /// Number of wakers to wake.
    to_wake: isize,
    nr_rings: isize,
    queue: WakerQueue,
}

impl View for SubmitWaitQueueInner {
    type V = Seq<u64>;

    /// The wakers that wait, the first to be woken first.
    closed spec fn view(&self) -> Seq<u64> {
        self.queue@
    }
}

impl SubmitWaitQueueInner {
    pub closed spec fn free_entries(&self) -> isize {
        self.free_entries
    }

    pub closed spec fn to_wake(&self) -> isize {
        self.to_wake
    }

    pub closed spec fn nr_rings(&self) -> isize {
        self.nr_rings
    }

    /// The square of the number of rings is a machine word.
    pub open spec fn wf(&self) -> bool {
        self.nr_rings() * self.nr_rings() <= isize::MAX
    }

    /// A queue that nobody waits in, with all counters at zero.
    pub fn new() -> (inner: Self)
        ensures
            inner.wf(),
            inner@ == Seq::<u64>::empty(),
            inner.free_entries() == 0,
            inner.to_wake() == 0,
            inner.nr_rings() == 0,
    {
        SubmitWaitQueueInner {
            free_entries: 0,
            to_wake: 0,
            nr_rings: 0,
            queue: WakerQueue::new(),
        }
    }

    /// Counts `free_entries` more free submission queue entries (fewer, where it is negative).
    pub fn add_free_entries(&mut self, free_entries: isize)
        ensures
            final(self).free_entries() == wrapped(old(self).free_entries() + free_entries),
            final(self).to_wake() == old(self).to_wake(),
            final(self).nr_rings() == old(self).nr_rings(),
            final(self)@ == old(self)@,
    {
        self.free_entries = self.free_entries.wrapping_add(free_entries);
    }

    /// Takes wakers from the queue until it is empty or the counter of wakers to wake is used up,
    /// and returns them in the order in which they are to be woken.
    pub fn wake(&mut self) -> (woken: Vec<u64>)
        requires
            old(self).wf(),
        ensures
            final(self).wf(),
            woken@ == old(self)@.take(wake_count(old(self)@.len() as int, old(self).to_wake() as int)),
            final(self)@ == old(self)@.skip(
                wake_count(old(self)@.len() as int, old(self).to_wake() as int),
            ),
            final(self).to_wake() == to_wake_after(
                old(self)@.len() as int,
                old(self).to_wake() as int,
                old(self).free_entries() as int,
                old(self).nr_rings() as int,
            ),
            final(self).free_entries() == old(self).free_entries(),
            final(self).nr_rings() == old(self).nr_rings(),
    {
        let mut woken: Vec<u64> = Vec::new();
        let ghost all = self@;
        loop
            invariant_except_break
                old(self).wf(),
                all == old(self)@,
                self.free_entries == old(self).free_entries,
                self.nr_rings == old(self).nr_rings,
                0 <= woken@.len() <= all.len(),
                woken@.len() <= quota(old(self).to_wake as int),
                woken@ == all.take(woken@.len() as int),
                self@ == all.skip(woken@.len() as int),
                quota(self.to_wake as int) == quota(old(self).to_wake as int) - woken@.len(),
            ensures
                self.free_entries == old(self).free_entries,
                self.nr_rings == old(self).nr_rings,
                woken@.len() == wake_count(all.len() as int, old(self).to_wake as int),
                woken@ == all.take(woken@.len() as int),
                self@ == all.skip(woken@.len() as int),
                self.to_wake == to_wake_after(
                    all.len() as int,
                    old(self).to_wake as int,
                    old(self).free_entries as int,
                    old(self).nr_rings as int,
                ),
            decreases self@.len(),
        {
            match self.queue.pop() {
                None => {
                    break;
                },
                Some(waker) => {
                    woken.push(waker);
                    assert(woken@ =~= all.take(woken@.len() as int));
                    assert(self@ =~= all.skip(woken@.len() as int));
                    let before: isize = self.to_wake;
                    self.to_wake = before.wrapping_sub(1);
                    if before == 0 {
                        assert(self.nr_rings * self.nr_rings >= 0) by (nonlinear_arith);
                        let square: isize = self.nr_rings * self.nr_rings;
                        self.to_wake = if self.free_entries <= square {
                            self.free_entries
                        } else {
                            square
                        };
                        break;
                    }
                },
            }
        }
        woken
    }

    /// Puts a waker at the end of the queue.
    pub fn push(&mut self, waker: u64)
        ensures
            final(self)@ == old(self)@.push(waker),
            final(self).free_entries() == old(self).free_entries(),
            final(self).to_wake() == old(self).to_wake(),
            final(self).nr_rings() == old(self).nr_rings(),
    {
        self.queue.push(waker);
    }
}

/// The waiting queue of a set of rings.
pub struct SubmitWaitQueue {
    inner: SubmitWaitQueueInner,
}

impl View for SubmitWaitQueue {
    type V = Seq<u64>;

    /// The wakers that wait, the first to be woken first.
    closed spec fn view(&self) -> Seq<u64> {
        self.inner@
    }
}

impl SubmitWaitQueue {
    pub closed spec fn free_entries(&self) -> isize {
        self.inner.free_entries()
    }

    pub closed spec fn to_wake(&self) -> isize {
        self.inner.to_wake()
    }

    pub closed spec fn nr_rings(&self) -> isize {
        self.inner.nr_rings()
    }

    /// The square of the number of rings is a machine word.
    pub open spec fn wf(&self) -> bool {
        self.nr_rings() * self.nr_rings() <= isize::MAX
    }

    /// A queue that nobody waits in, with all counters at zero.
    pub fn new() -> (queue: Self)
        ensures
            queue.wf(),
            queue@ == Seq::<u64>::empty(),
            queue.free_entries() == 0,
            queue.to_wake() == 0,
            queue.nr_rings() == 0,
    {
        SubmitWaitQueue { inner: SubmitWaitQueueInner::new() }
    }

    /// Counts `free_entries` more free submission queue entries (fewer, where it is negative).
    pub fn add_free_entries(&mut self, free_entries: isize)
        ensures
            final(self).free_entries() == wrapped(old(self).free_entries() + free_entries),
            final(self).to_wake() == old(self).to_wake(),
            final(self).nr_rings() == old(self).nr_rings(),
            final(self)@ == old(self)@,
    {
        self.inner.add_free_entries(free_entries);
    }

    /// Takes wakers from the queue until it is empty or the counter of wakers to wake is used up,
    /// and returns them in the order in which they are to be woken.
    pub fn wake(&mut self) -> (woken: Vec<u64>)
        requires
            old(self).wf(),
        ensures
            final(self).wf(),
            woken@ == old(self)@.take(wake_count(old(self)@.len() as int, old(self).to_wake() as int)),
            final(self)@ == old(self)@.skip(
                wake_count(old(self)@.len() as int, old(self).to_wake() as int),
            ),
            final(self).to_wake() == to_wake_after(
                old(self)@.len() as int,
                old(self).to_wake() as int,
                old(self).free_entries() as int,
                old(self).nr_rings() as int,
            ),
            final(self).free_entries() == old(self).free_entries(),
            final(self).nr_rings() == old(self).nr_rings(),
    {
        self.inner.wake()
    }

    /// Puts a waker at the end of the queue.
    pub fn push(&mut self, waker: u64)
        ensures
            final(self)@ == old(self)@.push(waker),
            final(self).free_entries() == old(self).free_entries(),
            final(self).to_wake() == old(self).to_wake(),
            final(self).nr_rings() == old(self).nr_rings(),
    {
        self.inner.push(waker);
    }
}

/// No waker is lost, woken twice or overtaken: the woken ones, followed by those that still wait,
/// are the wakers that waited before the call.
pub proof fn law_wake_keeps_every_waker(waiting: Seq<u64>, to_wake: isize)
    ensures
        waiting.take(wake_count(waiting.len() as int, to_wake as int)) + waiting.skip(
            wake_count(waiting.len() as int, to_wake as int),
        ) == waiting,
{
    let count = wake_count(waiting.len() as int, to_wake as int);
    assert(waiting.take(count) + waiting.skip(count) =~= waiting);
}

/// A call of `wake` on a queue in which somebody waits wakes at least one of them.
pub proof fn law_wake_makes_progress(waiting: Seq<u64>, to_wake: isize)
    requires
        waiting.len() > 0,
    ensures
        1 <= wake_count(waiting.len() as int, to_wake as int) <= waiting.len(),
{
}

/// With no rings counted and no deficit of free entries, a counter at zero stays at zero, and
/// each call of `wake` wakes one waker.
pub proof fn law_wake_one_at_a_time(waiting: Seq<u64>, free_entries: isize)
    requires
        free_entries >= 0,
    ensures
        wake_count(waiting.len() as int, 0) == if waiting.len() > 0 {
            1int
        } else {
            0
        },
        to_wake_after(waiting.len() as int, 0, free_entries as int, 0) == 0,
{
}

/// A deficit of free entries that is there when the counter is set anew makes the next call of
/// `wake` empty the queue, however many wakers a machine can hold wait in it.
pub proof fn law_deficit_wakes_all(waiting: Seq<u64>, deficit: isize, nr_rings: isize, next: Seq<u64>)
    requires
        deficit < 0,
        waiting.len() > 0,
        next.len() <= isize::MAX,
    ensures
        to_wake_after(waiting.len() as int, 0, deficit as int, nr_rings as int) == deficit,
        wake_count(next.len() as int, deficit as int) == next.len(),
{
    assert(nr_rings * nr_rings >= 0) by (nonlinear_arith);
}

} // verus!
