//! What callers can rely on of the queues of tasks that wait for room.

use vstd::prelude::*;

use crate::waker_queue::{SubmitWaitQueue, SubmitWaitQueueInner, WakerQueue};

verus! {

/// Wakers come out of a queue in the order in which they went in: a push puts its waker behind all
/// others, a pop takes the one in front, and an empty queue has none.
pub proof fn law_wakers_keep_their_order(start: WakerQueue, waker: u64, taken: Option<u64>)
    ensures
        call_ensures(WakerQueue::new, (), start) ==> start@.len() == 0,
        forall|queue: &mut WakerQueue| #[trigger]
            call_ensures(WakerQueue::push, (queue, waker), ()) ==> {
                &&& final(queue)@.len() == queue@.len() + 1
                &&& final(queue)@.last() == waker
                &&& final(queue)@.drop_last() == queue@
            },
        forall|queue: &mut WakerQueue| #[trigger]
            call_ensures(WakerQueue::pop, (queue,), taken) ==> {
                &&& taken is None <==> queue@.len() == 0
                &&& queue@.len() == 0 ==> final(queue)@ == queue@
                &&& queue@.len() > 0 ==> seq![taken->0] + final(queue)@ == queue@
            },
{
}

/// A call of `wake` on the inner queue wakes from the front of the queue and keeps the others in their
/// places. With a counter that is not negative it wakes one more than the counter says, and sets
/// the counter anew, to the smaller of the free entries and the square of the number of rings; or,
/// where no more wait than the counter says, it wakes all and counts them down. A negative counter
/// is read as an unsigned word.
pub proof fn law_inner_queue_wakes_from_the_front(woken: Vec<u64>)
    ensures
        forall|queue: &mut SubmitWaitQueueInner|
            queue.nr_rings() * queue.nr_rings() <= isize::MAX ==> #[trigger] call_requires(
                SubmitWaitQueueInner::wake,
                (queue,),
            ),
        forall|queue: &mut SubmitWaitQueueInner| #[trigger]
            call_ensures(SubmitWaitQueueInner::wake, (queue,), woken) ==> {
                let waiting = queue@.len() as int;
                let counter = if queue.to_wake() >= 0 {
                    queue.to_wake() as int
                } else {
                    queue.to_wake() + usize::MAX + 1
                };
                let square = queue.nr_rings() * queue.nr_rings();
                &&& final(queue).free_entries() == queue.free_entries()
                &&& final(queue).nr_rings() == queue.nr_rings()
                &&& waiting <= counter ==> {
                    &&& woken@ == queue@
                    &&& final(queue)@.len() == 0
                    &&& counter - waiting <= isize::MAX ==> final(queue).to_wake() == counter
                        - waiting
                    &&& counter - waiting > isize::MAX ==> final(queue).to_wake() == counter
                        - waiting - usize::MAX - 1
                }
                &&& waiting > counter ==> {
                    &&& woken@ == queue@.take(counter + 1)
                    &&& final(queue)@ == queue@.skip(counter + 1)
                    &&& final(queue).to_wake() <= queue.free_entries()
                    &&& final(queue).to_wake() <= square
                    &&& final(queue).to_wake() == queue.free_entries() || final(queue).to_wake()
                        == square
                }
            },
{
}

/// Without a ring counted, without a deficit of free entries and with the counter at zero, each call
/// of `wake` on the inner queue wakes exactly the one that has waited longest, and the counter
/// stays at zero.
pub proof fn law_inner_queue_wakes_one_at_a_time(woken: Vec<u64>)
    ensures
        forall|queue: &mut SubmitWaitQueueInner| #[trigger]
            call_ensures(SubmitWaitQueueInner::wake, (queue,), woken) && queue.nr_rings() == 0
                && queue.to_wake() == 0 && queue.free_entries() >= 0 ==> {
                &&& final(queue).to_wake() == 0
                &&& queue@.len() == 0 ==> woken@.len() == 0 && final(queue)@ == queue@
                &&& queue@.len() > 0 ==> woken@ == seq![queue@[0]] && final(queue)@
                    == queue@.drop_first()
            },
{
}

/// Free entries add up in the inner queue: the new count is the sum of the old one and of what
/// was added, or differs from it by one more than the largest machine word, where the sum is no
/// signed machine word. So a count without a deficit gets none by entries that become free. Nothing
/// else changes.
pub proof fn law_inner_queue_adds_free_entries_up(more: isize)
    ensures
        forall|queue: &mut SubmitWaitQueueInner| #[trigger]
            call_ensures(SubmitWaitQueueInner::add_free_entries, (queue, more), ()) ==> {
                let sum = queue.free_entries() + more;
                &&& isize::MIN <= sum <= isize::MAX ==> final(queue).free_entries() == sum
                &&& sum > isize::MAX ==> final(queue).free_entries() == sum - usize::MAX - 1
                &&& sum < isize::MIN ==> final(queue).free_entries() == sum + usize::MAX + 1
                &&& queue.free_entries() >= 0 && more >= 0 && sum <= isize::MAX ==> final(
                    queue
                ).free_entries() >= 0
                &&& final(queue).to_wake() == queue.to_wake()
                &&& final(queue).nr_rings() == queue.nr_rings()
                &&& final(queue)@ == queue@
            },
{
}

/// Entries that become free in the inner queue one after another, or at once, come to the same.
pub proof fn law_inner_queue_adds_in_any_portions(one: isize, other: isize, both: isize)
    requires
        both == one + other,
    ensures
        forall|queue: &mut SubmitWaitQueueInner, then_queue: &mut SubmitWaitQueueInner, at_once: &mut SubmitWaitQueueInner|
            #![trigger
                call_ensures(SubmitWaitQueueInner::add_free_entries, (queue, one), ()),
                call_ensures(SubmitWaitQueueInner::add_free_entries, (then_queue, other), ()),
                call_ensures(SubmitWaitQueueInner::add_free_entries, (at_once, both), ())
            ]
            call_ensures(SubmitWaitQueueInner::add_free_entries, (queue, one), ()) && call_ensures(
                SubmitWaitQueueInner::add_free_entries,
                (then_queue, other),
                (),
            ) && call_ensures(SubmitWaitQueueInner::add_free_entries, (at_once, both), ())
                && then_queue.free_entries() == final(queue).free_entries()
                && at_once.free_entries() == queue.free_entries() ==> final(
                then_queue
            ).free_entries() == final(at_once).free_entries(),
{
}

/// A waker that joins the inner queue is the last of those that wait; the others keep their
/// places, and no counter changes.
pub proof fn law_inner_queue_puts_wakers_at_the_end(waker: u64)
    ensures
        forall|queue: &mut SubmitWaitQueueInner| #[trigger]
            call_ensures(SubmitWaitQueueInner::push, (queue, waker), ()) ==> {
                &&& final(queue)@.len() == queue@.len() + 1
                &&& final(queue)@.last() == waker
                &&& final(queue)@.drop_last() == queue@
                &&& final(queue).free_entries() == queue.free_entries()
                &&& final(queue).to_wake() == queue.to_wake()
                &&& final(queue).nr_rings() == queue.nr_rings()
            },
{
}

/// The inner queue starts out empty, with every counter at zero.
pub proof fn law_inner_queue_starts_out_empty(queue: SubmitWaitQueueInner)
    requires
        call_ensures(SubmitWaitQueueInner::new, (), queue),
    ensures
        queue@.len() == 0,
        queue.free_entries() == 0,
        queue.to_wake() == 0,
        queue.nr_rings() == 0,
{
}

/// A call of `wake` on the waiting queue wakes from the front of the queue and keeps the others in their
/// places. With a counter that is not negative it wakes one more than the counter says, and sets
/// the counter anew, to the smaller of the free entries and the square of the number of rings; or,
/// where no more wait than the counter says, it wakes all and counts them down. A negative counter
/// is read as an unsigned word.
pub proof fn law_submit_queue_wakes_from_the_front(woken: Vec<u64>)
    ensures
        forall|queue: &mut SubmitWaitQueue|
            queue.nr_rings() * queue.nr_rings() <= isize::MAX ==> #[trigger] call_requires(
                SubmitWaitQueue::wake,
                (queue,),
            ),
        forall|queue: &mut SubmitWaitQueue| #[trigger]
            call_ensures(SubmitWaitQueue::wake, (queue,), woken) ==> {
                let waiting = queue@.len() as int;
                let counter = if queue.to_wake() >= 0 {
                    queue.to_wake() as int
                } else {
                    queue.to_wake() + usize::MAX + 1
                };
                let square = queue.nr_rings() * queue.nr_rings();
                &&& final(queue).free_entries() == queue.free_entries()
                &&& final(queue).nr_rings() == queue.nr_rings()
                &&& waiting <= counter ==> {
                    &&& woken@ == queue@
                    &&& final(queue)@.len() == 0
                    &&& counter - waiting <= isize::MAX ==> final(queue).to_wake() == counter
                        - waiting
                    &&& counter - waiting > isize::MAX ==> final(queue).to_wake() == counter
                        - waiting - usize::MAX - 1
                }
                &&& waiting > counter ==> {
                    &&& woken@ == queue@.take(counter + 1)
                    &&& final(queue)@ == queue@.skip(counter + 1)
                    &&& final(queue).to_wake() <= queue.free_entries()
                    &&& final(queue).to_wake() <= square
                    &&& final(queue).to_wake() == queue.free_entries() || final(queue).to_wake()
                        == square
                }
            },
{
}

/// Without a ring counted, without a deficit of free entries and with the counter at zero, each call
/// of `wake` on the waiting queue wakes exactly the one that has waited longest, and the counter
/// stays at zero.
pub proof fn law_submit_queue_wakes_one_at_a_time(woken: Vec<u64>)
    ensures
        forall|queue: &mut SubmitWaitQueue| #[trigger]
            call_ensures(SubmitWaitQueue::wake, (queue,), woken) && queue.nr_rings() == 0
                && queue.to_wake() == 0 && queue.free_entries() >= 0 ==> {
                &&& final(queue).to_wake() == 0
                &&& queue@.len() == 0 ==> woken@.len() == 0 && final(queue)@ == queue@
                &&& queue@.len() > 0 ==> woken@ == seq![queue@[0]] && final(queue)@
                    == queue@.drop_first()
            },
{
}

/// Free entries add up in the waiting queue: the new count is the sum of the old one and of what
/// was added, or differs from it by one more than the largest machine word, where the sum is no
/// signed machine word. So a count without a deficit gets none by entries that become free. Nothing
/// else changes.
pub proof fn law_submit_queue_adds_free_entries_up(more: isize)
    ensures
        forall|queue: &mut SubmitWaitQueue| #[trigger]
            call_ensures(SubmitWaitQueue::add_free_entries, (queue, more), ()) ==> {
                let sum = queue.free_entries() + more;
                &&& isize::MIN <= sum <= isize::MAX ==> final(queue).free_entries() == sum
                &&& sum > isize::MAX ==> final(queue).free_entries() == sum - usize::MAX - 1
                &&& sum < isize::MIN ==> final(queue).free_entries() == sum + usize::MAX + 1
                &&& queue.free_entries() >= 0 && more >= 0 && sum <= isize::MAX ==> final(
                    queue
                ).free_entries() >= 0
                &&& final(queue).to_wake() == queue.to_wake()
                &&& final(queue).nr_rings() == queue.nr_rings()
                &&& final(queue)@ == queue@
            },
{
}

/// Entries that become free in the waiting queue one after another, or at once, come to the same.
pub proof fn law_submit_queue_adds_in_any_portions(one: isize, other: isize, both: isize)
    requires
        both == one + other,
    ensures
        forall|queue: &mut SubmitWaitQueue, then_queue: &mut SubmitWaitQueue, at_once: &mut SubmitWaitQueue|
            #![trigger
                call_ensures(SubmitWaitQueue::add_free_entries, (queue, one), ()),
                call_ensures(SubmitWaitQueue::add_free_entries, (then_queue, other), ()),
                call_ensures(SubmitWaitQueue::add_free_entries, (at_once, both), ())
            ]
            call_ensures(SubmitWaitQueue::add_free_entries, (queue, one), ()) && call_ensures(
                SubmitWaitQueue::add_free_entries,
                (then_queue, other),
                (),
            ) && call_ensures(SubmitWaitQueue::add_free_entries, (at_once, both), ())
                && then_queue.free_entries() == final(queue).free_entries()
                && at_once.free_entries() == queue.free_entries() ==> final(
                then_queue
            ).free_entries() == final(at_once).free_entries(),
{
}

/// A waker that joins the waiting queue is the last of those that wait; the others keep their
/// places, and no counter changes.
pub proof fn law_submit_queue_puts_wakers_at_the_end(waker: u64)
    ensures
        forall|queue: &mut SubmitWaitQueue| #[trigger]
            call_ensures(SubmitWaitQueue::push, (queue, waker), ()) ==> {
                &&& final(queue)@.len() == queue@.len() + 1
                &&& final(queue)@.last() == waker
                &&& final(queue)@.drop_last() == queue@
                &&& final(queue).free_entries() == queue.free_entries()
                &&& final(queue).to_wake() == queue.to_wake()
                &&& final(queue).nr_rings() == queue.nr_rings()
            },
{
}

/// The waiting queue starts out empty, with every counter at zero.
pub proof fn law_submit_queue_starts_out_empty(queue: SubmitWaitQueue)
    requires
        call_ensures(SubmitWaitQueue::new, (), queue),
    ensures
        queue@.len() == 0,
        queue.free_entries() == 0,
        queue.to_wake() == 0,
        queue.nr_rings() == 0,
{
}

} // verus!
