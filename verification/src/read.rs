//! Reading into a borrowed buffer.

use vstd::prelude::*;

use crate::future::{polled, submitted, CompletionState, PollStep};
use crate::owned::{
    count_down, count_up, reclaimed, released, KernelHeap, KernelOwned, KernelOwnedOnHeap,
};
use crate::reactor::{
    after_completions, after_stray, all_freed, answerable, completed, completion_wakers, counted,
    freed_by, freed_by_stray, is_answered, law_completions_pointwise, pending, process_round,
    take_answer, unparked, with_freed, Completion, Reactor,
};
use crate::sqe::{Sqe, IORING_OP_READ};
use crate::sys::OsError;
use crate::waker_queue::WakerQueue;

verus! {

/// How many [`Checker`]s there are.
pub struct CheckerCount {
    live: usize,
}

impl View for CheckerCount {
    type V = usize;

    /// The number of live checkers.
    closed spec fn view(&self) -> usize {
        self.live
    }
}

impl CheckerCount {
    /// No checker yet.
    pub fn new() -> (count: Self)
        ensures
            count@ == 0,
    {
        CheckerCount { live: 0 }
    }

    /// The number of live checkers.
    pub fn get(&self) -> (live: usize)
        ensures
            live == self@,
    {
        self.live
    }
}

/// A counted token that travels with an object, to notice when the object goes.
pub struct Checker {
    live: usize,
}

impl Checker {
    /// A checker that exists was not dropped before.
    #[verifier::type_invariant]
    spec fn is_live(self) -> bool {
        self.live == 1
    }

    /// A checker, counted in `count`.
    pub fn new(count: &mut CheckerCount) -> (checker: Self)
        ensures
            final(count)@ == count_up(old(count)@),
    {
        count.live = count.live.wrapping_add(1);
        Checker { live: 1 }
    }

    /// Takes the checker out of `count`. No checker is dropped twice.
    pub fn release(self, count: &mut CheckerCount)
        ensures
            final(count)@ == count_down(old(count)@),
    {
        proof {
            use_type_invariant(&self);
            assert(self.live == 1);
        }
        count.live = count.live.wrapping_sub(1);
    }
}

/// A checker that was made and dropped leaves the count as it was.
pub proof fn law_checkers_balance(count: usize)
    ensures
        count_down(count_up(count)) == count,
{
}

/// `slice::as_ptr`: where the borrowed bytes are in memory. Which address that is, is the
/// allocator's choice; a reference is never null, so it is not zero.
///
/// It takes the mutable borrow, not the bytes: what is said of one borrow is not said of another
/// that holds equal bytes.
#[verifier::external_body]
fn address_of(bytes: &&mut [u8]) -> (addr: u64)
    ensures
        addr != 0,
{
    bytes.as_ptr() as u64
}

/// A read from the file `fd`, at `offset`, into `buf`.
pub struct Read<'a> {
    pub fd: i32,
    /// The buffer. It stays borrowed until the read is over; only the kernel writes to it.
    pub buf: &'a mut [u8],
    pub offset: u64,
}

impl<'a> Read<'a> {
    /// The entry that asks the kernel for the read, if the buffer is in memory at `addr`. Its
    /// length field holds the low 32 bits of the buffer's length.
    pub open spec fn entry_at(&self, addr: u64, user_data: u64) -> Sqe {
        Sqe {
            opcode: IORING_OP_READ,
            fd: self.fd,
            off: self.offset,
            addr,
            len: (self.buf@.len() % 0x1_0000_0000) as u32,
            user_data,
            ..Sqe::zero()
        }
    }

    /// Whether `addr` is what `slice::as_ptr` can return for this borrow of the buffer.
    pub closed spec fn in_memory_at(&self, addr: u64) -> bool {
        call_ensures(address_of, (&self.buf,), addr)
    }

    /// A read from the file `fd`, at `offset`, into `buf`.
    pub fn new(fd: i32, buf: &'a mut [u8], offset: u64) -> (read: Self)
        ensures
            read.fd == fd,
            (*read.buf)@ == old(buf)@,
            (*final(read.buf))@ == final(buf)@,
            read.offset == offset,
    {
        Read { fd, buf, offset }
    }

    /// The entry that asks the kernel for the read, for the buffer where it is.
    pub fn build(&self, user_data: u64) -> (entry: Sqe)
        ensures
            entry == self.entry_at(entry.addr, user_data),
            self.in_memory_at(entry.addr),
            entry.addr != 0,
    {
        self.build_at(address_of(&self.buf), user_data)
    }

    /// The entry that asks the kernel for the read, for a buffer in memory at `addr`.
    pub fn build_at(&self, addr: u64, user_data: u64) -> (entry: Sqe)
        ensures
            entry == self.entry_at(addr, user_data),
    {
        let len: usize = self.buf.len();
        assert((len as u32) as int == len as u64 % 0x1_0000_0000u64) by (bit_vector);
        let mut entry = Sqe::zeroed();
        entry.opcode = IORING_OP_READ;
        entry.fd = self.fd;
        entry.addr = addr;
        entry.len = len as u32;
        entry.off = self.offset;
        entry.user_data = user_data;
        entry
    }
}

/// An address belongs to a read if and only if `slice::as_ptr` can return it for the very borrow
/// that the read holds: what holds of a buffer with the same bytes does not carry over.
proof fn law_address_is_of_the_borrow<'a>()
    ensures
        forall|read: Read<'a>, addr: u64| #[trigger]
            read.in_memory_at(addr) <==> call_ensures(address_of, (&read.buf,), addr),
        forall|read: &Read<'a>, user_data: u64, entry: Sqe| #[trigger]
            call_ensures(Read::<'a>::build, (read, user_data), entry) ==> call_ensures(
                address_of,
                (&read.buf,),
                entry.addr,
            ),
{
}

/// A handle to the state of a read. A byte and a checker of type `C` are kept with it.
pub struct CompletionRef<C> {
    inner: KernelOwned<(Vec<u8>, C)>,
}

impl<C> CompletionRef<C> {
    /// The address of the object.
    pub closed spec fn addr(self) -> u64 {
        self.inner.addr()
    }

    /// The state of a read that was not submitted yet.
    pub fn new(heap: &mut KernelHeap<(Vec<u8>, C)>, checker: C) -> (completion: Self)
        requires
            old(heap).wf(),
        ensures
            final(heap).wf(),
            completion.addr() != 0,
            !old(heap)@.dom().contains(completion.addr()),
            final(heap)@ == old(heap)@.insert(
                completion.addr(),
                KernelOwnedOnHeap::fresh(final(heap)@[completion.addr()].data->0),
            ),
            (final(heap)@[completion.addr()].data->0).0@ == seq![0u8],
            (final(heap)@[completion.addr()].data->0).1 == checker,
    {
        let v: Vec<u8> = vec![0];
        let inner = KernelOwned::new(heap, (v, checker));
        assert(v@ =~= seq![0u8]);
        CompletionRef { inner }
    }
}

impl CompletionRef<Checker> {
    /// The state of a read that was not submitted yet, with a checker of its own, counted in
    /// `count`.
    pub fn counted(heap: &mut KernelHeap<(Vec<u8>, Checker)>, count: &mut CheckerCount)
        -> (completion: Self)
        requires
            old(heap).wf(),
        ensures
            final(heap).wf(),
            completion.addr() != 0,
            !old(heap)@.dom().contains(completion.addr()),
            final(heap)@ == old(heap)@.insert(
                completion.addr(),
                KernelOwnedOnHeap::fresh(final(heap)@[completion.addr()].data->0),
            ),
            (final(heap)@[completion.addr()].data->0).0@ == seq![0u8],
            final(count)@ == count_up(old(count)@),
    {
        let checker = Checker::new(count);
        CompletionRef::new(heap, checker)
    }
}

/// A read on its way to the kernel and back.
pub struct Fut<'a, C> {
    inner: Read<'a>,
    state: CompletionRef<C>,
}

impl<'a> Fut<'a, Checker> {
    /// A future for `inner`, with a checker of its own, counted in `count`.
    pub fn counted(
        heap: &mut KernelHeap<(Vec<u8>, Checker)>,
        inner: Read<'a>,
        count: &mut CheckerCount,
    ) -> (future: Self)
        requires
            old(heap).wf(),
        ensures
            final(heap).wf(),
            future.inner() == inner,
            future.addr() != 0,
            !old(heap)@.dom().contains(future.addr()),
            final(heap)@ == old(heap)@.insert(
                future.addr(),
                KernelOwnedOnHeap::fresh(final(heap)@[future.addr()].data->0),
            ),
            (final(heap)@[future.addr()].data->0).0@ == seq![0u8],
            final(count)@ == count_up(old(count)@),
    {
        Fut { inner, state: CompletionRef::counted(heap, count) }
    }

    /// Ends the future. Where the kernel has no handle to the read's state, that goes, and its
    /// checker is taken out of `count`.
    pub fn release_counted(
        self,
        heap: &mut KernelHeap<(Vec<u8>, Checker)>,
        count: &mut CheckerCount,
    )
        requires
            old(heap).wf(),
            old(heap)@.dom().contains(self.addr()),
        ensures
            final(heap).wf(),
            final(heap)@ == released(old(heap)@, self.addr()),
            final(count)@ == count_without(old(count)@, reclaimed(old(heap)@, self.addr())),
    {
        if let Some(object) = self.state.inner.reclaim(heap) {
            drop_read(object, count);
        }
    }
}

impl<'a, C> Fut<'a, C> {
    /// The read.
    pub closed spec fn inner(&self) -> Read<'a> {
        self.inner
    }

    /// The address of the read's state.
    pub closed spec fn addr(&self) -> u64 {
        self.state.addr()
    }

    /// A future for `inner`.
    pub fn new(heap: &mut KernelHeap<(Vec<u8>, C)>, inner: Read<'a>, checker: C) -> (future: Self)
        requires
            old(heap).wf(),
        ensures
            final(heap).wf(),
            future.inner() == inner,
            future.addr() != 0,
            !old(heap)@.dom().contains(future.addr()),
            final(heap)@ == old(heap)@.insert(
                future.addr(),
                KernelOwnedOnHeap::fresh(final(heap)@[future.addr()].data->0),
            ),
            (final(heap)@[future.addr()].data->0).0@ == seq![0u8],
            (final(heap)@[future.addr()].data->0).1 == checker,
    {
        Fut { inner, state: CompletionRef::new(heap, checker) }
    }

    /// The object that holds the read's state, if it is on this heap.
    pub fn object<'b, D>(&self, heap: &'b KernelHeap<D>) -> (object: Option<
        &'b KernelOwnedOnHeap<D>,
    >)
        ensures
            object == (if heap@.dom().contains(self.addr()) {
                Some(&heap@[self.addr()])
            } else {
                None
            }),
    {
        self.state.inner.object(heap)
    }

    /// Moves the read on, for a task that `waker` wakes.
    ///
    /// A read that was not submitted yet is submitted, or, where `ring_full` says that the
    /// submission queue has no room, has its waker put on the waiting queue. One that the kernel
    /// has answered is over: a negative answer is an error number, any other is the number of
    /// bytes read.
    pub fn poll<D>(
        &self,
        heap: &mut KernelHeap<D>,
        waiting: &mut WakerQueue,
        ring_full: bool,
        waker: u64,
    ) -> (step: PollStep<i32>)
        requires
            old(heap).wf(),
            old(heap)@.dom().contains(self.addr()),
            match old(heap)@[self.addr()].header.state {
                CompletionState::Unsubmitted => true,
                CompletionState::InProgress { .. } => false,
                CompletionState::Completed { result } => result != i32::MIN,
            },
        ensures
            final(heap).wf(),
            final(heap)@ == polled(old(heap)@, self.addr(), ring_full, waker, false),
            match old(heap)@[self.addr()].header.state {
                CompletionState::Unsubmitted => if ring_full {
                    &&& step is Parked
                    &&& final(waiting)@ == old(waiting)@.push(waker)
                } else {
                    &&& step matches PollStep::Submit { entry } && entry == self.inner().entry_at(
                        entry.addr,
                        self.addr(),
                    ) && self.inner().in_memory_at(entry.addr) && entry.addr != 0
                    &&& final(waiting)@ == old(waiting)@
                },
                CompletionState::InProgress { .. } => false,
                CompletionState::Completed { result } => {
                    &&& step == (PollStep::Ready {
                        output: if result < 0 {
                            Err::<i32, OsError>(OsError { code: (-result) as i32 })
                        } else {
                            Ok(result)
                        },
                    })
                    &&& final(waiting)@ == old(waiting)@
                },
            },
    {
        match *self.state.inner.state(heap) {
            CompletionState::Unsubmitted => {
                if ring_full {
                    // No room now, try again later.
                    waiting.push(waker);
                    return PollStep::Parked;
                }
                let user_data = self.state.inner.place_in_kernel(heap);
                let entry = self.inner.build(user_data);
                *self.state.inner.state_mut(heap) = CompletionState::InProgress { waker };
                assert(heap@ =~= submitted(old(heap)@, self.addr(), waker));
                PollStep::Submit { entry }
            },
            CompletionState::InProgress { .. } => vstd::pervasive::unreached(),
            CompletionState::Completed { result } => {
                if result < 0 {
                    PollStep::Ready { output: Err(OsError { code: -result }) }
                } else {
                    PollStep::Ready { output: Ok(result) }
                }
            },
        }
    }

    /// Ends the future. The read's state lives on as long as the kernel has a handle to it.
    pub fn release<D>(self, heap: &mut KernelHeap<D>)
        requires
            old(heap).wf(),
            old(heap)@.dom().contains(self.addr()),
        ensures
            final(heap).wf(),
            final(heap)@ == released(old(heap)@, self.addr()),
    {
        self.state.inner.release(heap);
    }
}

/// The number of checkers after `freed` went, with the checker that it still held, if any.
pub open spec fn count_without<T>(count: usize, freed: Option<KernelOwnedOnHeap<T>>) -> usize {
    match freed {
        Some(object) => if object.data is Some {
            count_down(count)
        } else {
            count
        },
        None => count,
    }
}

/// The number of checkers after all of `freed` went.
pub open spec fn count_without_all<T>(count: usize, freed: Seq<KernelOwnedOnHeap<T>>) -> usize
    decreases freed.len(),
{
    if freed.len() == 0 {
        count
    } else {
        count_without_all(count_without(count, Some(freed.last())), freed.drop_last())
    }
}

/// Takes the checker of a read whose state went out of `count`.
fn drop_read(object: KernelOwnedOnHeap<(Vec<u8>, Checker)>, count: &mut CheckerCount)
    ensures
        final(count)@ == count_without(old(count)@, Some(object)),
{
    if let Some((_, checker)) = object.data {
        checker.release(count);
    }
}

/// Takes the checkers of reads whose state went out of `count`.
pub fn drop_reads(
    freed: Vec<KernelOwnedOnHeap<(Vec<u8>, Checker)>>,
    count: &mut CheckerCount,
)
    ensures
        final(count)@ == count_without_all(old(count)@, freed@),
{
    let mut rest = freed;
    while rest.len() > 0
        invariant
            count_without_all(count@, rest@) == count_without_all(old(count)@, freed@),
        decreases rest@.len(),
    {
        if let Some(object) = rest.pop() {
            drop_read(object, count);
        }
    }
}

/// [`crate::reactor::set_result`] for a counted read: where the read's state goes, its checker is
/// taken out of `count`.
pub fn set_result_counted(
    heap: &mut KernelHeap<(Vec<u8>, Checker)>,
    user_data: u64,
    result: i32,
    count: &mut CheckerCount,
) -> (waker: u64)
    requires
        old(heap).wf(),
        pending(old(heap)@, user_data),
    ensures
        final(heap).wf(),
        final(heap)@ == completed(old(heap)@, user_data, result),
        old(heap)@[user_data].header.state == (CompletionState::InProgress { waker }),
        final(count)@ == count_without(
            old(count)@,
            freed_by(old(heap)@, (Completion { user_data, result })),
        ),
{
    let (waker, freed) = take_answer(heap, Completion { user_data, result });
    if let Some(object) = freed {
        drop_read(object, count);
    }
    waker
}

/// [`crate::reactor::process_uring`] for counted reads: the checkers of the reads whose state goes
/// are taken out of `count`.
pub fn process_uring_counted(
    reactor: &mut Reactor<(Vec<u8>, Checker)>,
    completions: &Vec<Completion>,
    count: &mut CheckerCount,
) -> (woken: Vec<u64>)
    requires
        old(reactor).heap.wf(),
        answerable(old(reactor).heap@, completions@),
    ensures
        final(reactor).heap.wf(),
        final(reactor).heap@ == after_completions(old(reactor).heap@, completions@),
        woken@ == completion_wakers(old(reactor).heap@, completions@) + old(
            reactor,
        ).waiting@.take(unparked(old(reactor).waiting@.len())),
        final(reactor).waiting@ == old(reactor).waiting@.skip(
            unparked(old(reactor).waiting@.len()),
        ),
        final(reactor).rounds == counted(old(reactor).rounds, 1),
        final(reactor).completed == counted(old(reactor).completed, completions@.len() as int),
        final(count)@ == count_without_all(
            old(count)@,
            all_freed(old(reactor).heap@, completions@),
        ),
{
    let round = process_round(reactor, completions);
    drop_reads(round.freed, count);
    round.woken
}

/// Counted reads: their states, and the number of checkers.
pub struct CountedReads<T> {
    pub objects: Map<u64, KernelOwnedOnHeap<T>>,
    pub count: usize,
}

/// What can happen to counted reads.
pub enum ReadEvent<T> {
    /// A read is made; its state is put at `addr`.
    Start { addr: u64, data: T },
    /// The future of the read at `addr` is polled.
    Poll { addr: u64, ring_full: bool, waker: u64 },
    /// A ring is processed.
    Answers { completions: Seq<Completion> },
    /// An answer comes that is not waited for.
    Stray { completion: Completion },
    /// The future of the read at `addr` ends.
    End { addr: u64 },
}

impl<T> CountedReads<T> {
    /// No read yet.
    pub open spec fn none() -> Self {
        CountedReads { objects: Map::empty(), count: 0 }
    }

    /// Whether `event` can happen now. There is memory for fewer reads than `usize` has values.
    pub open spec fn can_happen(self, event: ReadEvent<T>) -> bool {
        match event {
            ReadEvent::Start { addr, .. } => !self.objects.dom().contains(addr) && self.count
                < usize::MAX,
            ReadEvent::Poll { addr, .. } => self.objects.dom().contains(addr),
            ReadEvent::Answers { completions } => answerable(self.objects, completions),
            ReadEvent::Stray { .. } => true,
            ReadEvent::End { addr } => self.objects.dom().contains(addr),
        }
    }

    /// The reads after `event`: what [`Fut::counted`], [`Fut::poll`], [`process_uring_counted`],
    /// [`crate::reactor::process_round`] with [`drop_reads`], and [`Fut::release_counted`] make of
    /// them.
    pub open spec fn after(self, event: ReadEvent<T>) -> Self {
        match event {
            ReadEvent::Start { addr, data } => CountedReads {
                objects: self.objects.insert(addr, KernelOwnedOnHeap::fresh(data)),
                count: count_up(self.count),
            },
            ReadEvent::Poll { addr, ring_full, waker } => CountedReads {
                objects: polled(self.objects, addr, ring_full, waker, false),
                count: self.count,
            },
            ReadEvent::Answers { completions } => CountedReads {
                objects: after_completions(self.objects, completions),
                count: count_without_all(self.count, all_freed(self.objects, completions)),
            },
            ReadEvent::Stray { completion } => CountedReads {
                objects: after_stray(self.objects, completion),
                count: count_without(self.count, freed_by_stray(self.objects, completion)),
            },
            ReadEvent::End { addr } => CountedReads {
                objects: released(self.objects, addr),
                count: count_without(self.count, reclaimed(self.objects, addr)),
            },
        }
    }

    /// The reads after `events`, in order.
    pub open spec fn after_all(self, events: Seq<ReadEvent<T>>) -> Self
        decreases events.len(),
    {
        if events.len() == 0 {
            self
        } else {
            self.after_all(events.drop_last()).after(events.last())
        }
    }

    /// Whether `events` can happen, in order.
    pub open spec fn can_all_happen(self, events: Seq<ReadEvent<T>>) -> bool
        decreases events.len(),
    {
        events.len() > 0 ==> {
            &&& self.can_all_happen(events.drop_last())
            &&& self.after_all(events.drop_last()).can_happen(events.last())
        }
    }

    /// Whether the count is the number of reads whose state is on the heap. Each of those has its
    /// checker.
    pub open spec fn is_exact(self) -> bool {
        &&& self.objects.dom().finite()
        &&& self.objects.dom().len() == self.count
        &&& forall|addr: u64| #[trigger]
            self.objects.dom().contains(addr) ==> self.objects[addr].data is Some
    }
}

/// A handle that goes, whatever the state it leaves behind, keeps the count exact.
proof fn lemma_release_keeps_count_exact<T>(
    reads: CountedReads<T>,
    addr: u64,
    state: CompletionState,
)
    requires
        reads.is_exact(),
        reads.objects.dom().contains(addr),
    ensures
        ({
            let recorded = reads.objects.insert(addr, reads.objects[addr].in_state(state));
            (CountedReads {
                objects: released(recorded, addr),
                count: count_without(reads.count, reclaimed(recorded, addr)),
            }).is_exact()
        }),
{
    let recorded = reads.objects.insert(addr, reads.objects[addr].in_state(state));
    assert(recorded.dom() =~= reads.objects.dom());
    if recorded[addr].header.ref_count == 1 {
        assert(released(recorded, addr).dom() =~= reads.objects.dom().remove(addr));
    } else {
        assert(released(recorded, addr).dom() =~= reads.objects.dom());
    }
}

/// It does not matter when in the series an object goes.
proof fn lemma_count_without_commutes<T>(
    count: usize,
    freed: Seq<KernelOwnedOnHeap<T>>,
    other: Option<KernelOwnedOnHeap<T>>,
)
    ensures
        count_without_all(count_without(count, other), freed) == count_without(
            count_without_all(count, freed),
            other,
        ),
    decreases freed.len(),
{
    if freed.len() > 0 {
        let last = Some(freed.last());
        lemma_count_without_commutes(count_without(count, last), freed.drop_last(), other);
        assert(count_without(count_without(count, other), last) == count_without(
            count_without(count, last),
            other,
        ));
    }
}

/// A ring that is processed keeps the count exact.
proof fn lemma_answers_keep_count_exact<T>(reads: CountedReads<T>, completions: Seq<Completion>)
    requires
        reads.is_exact(),
        answerable(reads.objects, completions),
    ensures
        reads.after(ReadEvent::Answers { completions }).is_exact(),
    decreases completions.len(),
{
    if completions.len() > 0 {
        let init = completions.drop_last();
        let last = completions.last();
        assert(forall|i: int| 0 <= i < init.len() ==> #[trigger] init[i] == completions[i]);
        assert(last == completions[completions.len() - 1]);
        lemma_answers_keep_count_exact(reads, init);
        law_completions_pointwise(reads.objects, init);
        assert(!is_answered(init, last.user_data));
        let before = reads.after(ReadEvent::Answers { completions: init });
        assert(before.objects.dom().contains(last.user_data));
        lemma_release_keeps_count_exact(
            before,
            last.user_data,
            CompletionState::Completed { result: last.result },
        );
        let freed = all_freed(reads.objects, init);
        let other = freed_by(before.objects, last);
        lemma_count_without_commutes(reads.count, freed, other);
        match other {
            Some(object) => {
                assert(freed.push(object).drop_last() =~= freed);
                assert(freed.push(object).last() == object);
            },
            None => {},
        }
        assert(count_without_all(reads.count, with_freed(freed, other)) == count_without(
            before.count,
            other,
        ));
    }
}

/// The count is the number of live counted reads, whatever happens to them and in whatever order:
/// once no read is left, it is zero.
pub proof fn law_count_is_the_number_of_live_reads<T>(events: Seq<ReadEvent<T>>)
    requires
        CountedReads::<T>::none().can_all_happen(events),
    ensures
        CountedReads::<T>::none().after_all(events).is_exact(),
        CountedReads::<T>::none().after_all(events).objects == Map::<
            u64,
            KernelOwnedOnHeap<T>,
        >::empty() ==> CountedReads::<T>::none().after_all(events).count == 0,
    decreases events.len(),
{
    let none = CountedReads::<T>::none();
    if events.len() > 0 {
        law_count_is_the_number_of_live_reads(events.drop_last());
        let before = none.after_all(events.drop_last());
        let after = before.after(events.last());
        match events.last() {
            ReadEvent::Start { addr, data } => {
                assert(after.objects.dom() =~= before.objects.dom().insert(addr));
            },
            ReadEvent::Poll { addr, ring_full, waker } => {
                assert(after.objects.dom() =~= before.objects.dom());
            },
            ReadEvent::Answers { completions } => {
                lemma_answers_keep_count_exact(before, completions);
            },
            ReadEvent::Stray { completion } => {
                if before.objects.dom().contains(completion.user_data) {
                    lemma_release_keeps_count_exact(
                        before,
                        completion.user_data,
                        CompletionState::Completed { result: completion.result },
                    );
                }
            },
            ReadEvent::End { addr } => {
                let state = before.objects[addr].header.state;
                assert(before.objects.insert(addr, before.objects[addr].in_state(state))
                    =~= before.objects);
                lemma_release_keeps_count_exact(before, addr, state);
            },
        }
    }
}

} // verus!
