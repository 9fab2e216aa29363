//! Reference-counted objects that can be handed to the kernel as a plain 64-bit number.

use core::marker::PhantomData;

use vstd::prelude::*;

use crate::future::CompletionState;

verus! {

/// The part of an object that can be used without knowing the type of its data.
pub struct KernelOwnedOnHeapHeader {
    /// The number of handles to the object.
    pub ref_count: usize,
    pub state: CompletionState,
}

/// An object on the [`KernelHeap`].
pub struct KernelOwnedOnHeap<T> {
    pub header: KernelOwnedOnHeapHeader,
    /// The payload, until it is moved out.
    pub data: Option<T>,
}

impl<T> KernelOwnedOnHeap<T> {
    /// An object as it is when it comes into being: one handle, nothing submitted.
    pub open spec fn fresh(data: T) -> Self {
        KernelOwnedOnHeap {
            header: KernelOwnedOnHeapHeader { ref_count: 1, state: CompletionState::Unsubmitted },
            data: Some(data),
        }
    }

    /// The same object with another reference count.
    pub open spec fn counting(self, ref_count: usize) -> Self {
        KernelOwnedOnHeap {
            header: KernelOwnedOnHeapHeader { ref_count, state: self.header.state },
            data: self.data,
        }
    }

    /// The same object in another completion state.
    pub open spec fn in_state(self, state: CompletionState) -> Self {
        KernelOwnedOnHeap {
            header: KernelOwnedOnHeapHeader { ref_count: self.header.ref_count, state },
            data: self.data,
        }
    }

    /// The same object after its payload was moved out.
    pub open spec fn emptied(self) -> Self {
        KernelOwnedOnHeap { header: self.header, data: None }
    }

    /// An object that holds `data` and has one handle.
    pub fn new(data: T) -> (object: Self)
        ensures
            object == Self::fresh(data),
    {
        KernelOwnedOnHeap {
            header: KernelOwnedOnHeapHeader { ref_count: 1, state: CompletionState::Unsubmitted },
            data: Some(data),
        }
    }
}

/// A reference count after one more handle; counts wrap around, as atomic counters do.
pub open spec fn count_up(count: usize) -> usize {
    if count == usize::MAX {
        0
    } else {
        (count + 1) as usize
    }
}

/// A reference count after one handle less; counts wrap around, as atomic counters do.
pub open spec fn count_down(count: usize) -> usize {
    if count == 0 {
        usize::MAX
    } else {
        (count - 1) as usize
    }
}

/// The objects after one more handle to the one at `addr` was made.
pub open spec fn retained<T>(
    objects: Map<u64, KernelOwnedOnHeap<T>>,
    addr: u64,
) -> Map<u64, KernelOwnedOnHeap<T>> {
    objects.insert(addr, objects[addr].counting(count_up(objects[addr].header.ref_count)))
}

/// The objects after a handle to the one at `addr` was dropped: the last handle takes the object
/// with it.
pub open spec fn released<T>(
    objects: Map<u64, KernelOwnedOnHeap<T>>,
    addr: u64,
) -> Map<u64, KernelOwnedOnHeap<T>> {
    if objects[addr].header.ref_count == 1 {
        objects.remove(addr)
    } else {
        objects.insert(addr, objects[addr].counting(count_down(objects[addr].header.ref_count)))
    }
}

/// What a handle to the object at `addr` takes off the heap when it is dropped: the object, if the
/// handle is the last.
pub open spec fn reclaimed<T>(
    objects: Map<u64, KernelOwnedOnHeap<T>>,
    addr: u64,
) -> Option<KernelOwnedOnHeap<T>> {
    if objects[addr].header.ref_count == 1 {
        Some(objects[addr])
    } else {
        None
    }
}

/// The memory that objects live in. Every object has a box of its own, which nothing here replaces
/// until the object is freed, so that the kernel can be told where its payload is.
///
/// Whoever borrows the heap mutably holds the lock on every object in it.
pub struct KernelHeap<T> {
    /// The object at address `a` is in slot `a - 1`.
    slots: Vec<Option<Box<KernelOwnedOnHeap<T>>>>,
    /// The slots that are free for reuse.
    free: Vec<usize>,
}

impl<T> View for KernelHeap<T> {
    type V = Map<u64, KernelOwnedOnHeap<T>>;

    /// The live objects, by address.
    closed spec fn view(&self) -> Map<u64, KernelOwnedOnHeap<T>> {
        Map::new(
            |addr: u64| 1 <= addr <= self.slots@.len() && self.slots@[addr - 1] is Some,
            |addr: u64| *(self.slots@[addr - 1]->0),
        )
    }
}

impl<T> KernelHeap<T> {
    /// The free list names empty slots, each once.
    pub closed spec fn wf(&self) -> bool {
        &&& forall|i: int|
            0 <= i < self.free@.len() ==> (#[trigger] self.free@[i]) < self.slots@.len()
                && self.slots@[self.free@[i] as int] is None
        &&& forall|i: int, j: int|
            0 <= i < j < self.free@.len() ==> self.free@[i] != self.free@[j]
    }

    /// No object lives at address zero.
    pub proof fn lemma_no_object_at_zero(&self)
        ensures
            !self@.dom().contains(0),
    {
    }

    /// A heap without objects.
    pub fn new() -> (heap: Self)
        ensures
            heap.wf(),
            heap@ == Map::<u64, KernelOwnedOnHeap<T>>::empty(),
    {
        let heap = KernelHeap { slots: Vec::new(), free: Vec::new() };
        assert(heap@ =~= Map::<u64, KernelOwnedOnHeap<T>>::empty());
        heap
    }

    /// The object at `addr`, if one lives there.
    pub fn get(&self, addr: u64) -> (object: Option<&KernelOwnedOnHeap<T>>)
        ensures
            object == (if self@.dom().contains(addr) {
                Some(&self@[addr])
            } else {
                None
            }),
    {
        assert(self.slots.len() == self.slots@.len());
        if addr == 0 || addr > self.slots.len() as u64 {
            return None;
        }
        match &self.slots[(addr - 1) as usize] {
            Some(object) => Some(&**object),
            None => None,
        }
    }

    /// Exclusive access to the object at `addr`.
    fn get_mut(&mut self, addr: u64) -> (object: &mut KernelOwnedOnHeap<T>)
        requires
            old(self).wf(),
            old(self)@.dom().contains(addr),
        ensures
            *object == old(self)@[addr],
            final(self).wf(),
            final(self)@ == old(self)@.insert(addr, *final(object)),
    {
        assert(self.slots.len() == self.slots@.len());
        let index: usize = (addr - 1) as usize;
        match &mut self.slots[index] {
            Some(object) => &mut **object,
            None => vstd::pervasive::unreached(),
        }
    }

    /// Stores an object and returns its address, which no live object has.
    fn insert(&mut self, object: KernelOwnedOnHeap<T>) -> (addr: u64)
        requires
            old(self).wf(),
        ensures
            final(self).wf(),
            addr != 0,
            !old(self)@.dom().contains(addr),
            final(self)@ == old(self)@.insert(addr, object),
    {
        match self.free.pop() {
            Some(index) => {
                self.slots[index] = Some(Box::new(object));
                assert(self.slots.len() == self.slots@.len());
                let addr: u64 = index as u64 + 1;
                assert(self@ =~= old(self)@.insert(addr, object));
                addr
            },
            None => {
                self.slots.push(Some(Box::new(object)));
                let addr: u64 = self.slots.len() as u64;
                assert(self@ =~= old(self)@.insert(addr, object));
                addr
            },
        }
    }

    /// Takes the object at `addr` off the heap.
    fn remove(&mut self, addr: u64) -> (object: KernelOwnedOnHeap<T>)
        requires
            old(self).wf(),
            old(self)@.dom().contains(addr),
        ensures
            final(self).wf(),
            object == old(self)@[addr],
            final(self)@ == old(self)@.remove(addr),
    {
        assert(self.slots.len() == self.slots@.len());
        let index: usize = (addr - 1) as usize;
        let object = self.slots[index].take();
        self.free.push(index);
        assert(self@ =~= old(self)@.remove(addr));
        *object.unwrap()
    }
}

/// A handle to an object on a [`KernelHeap`].
///
/// A handle is one word, so that it can travel through the kernel as user data. Every handle
/// counts: it is given back with [`KernelOwned::release`], or turned into user data and given
/// back by whoever receives that.
pub struct KernelOwned<T> {
    ptr: u64,
    marker: PhantomData<T>,
}

impl<T> KernelOwned<T> {
    /// The address of the object.
    pub closed spec fn addr(self) -> u64 {
        self.ptr
    }

    /// Puts `data` on the heap, with the returned handle as its only one.
    pub fn new(heap: &mut KernelHeap<T>, data: T) -> (owned: Self)
        requires
            old(heap).wf(),
        ensures
            final(heap).wf(),
            owned.addr() != 0,
            !old(heap)@.dom().contains(owned.addr()),
            final(heap)@ == old(heap)@.insert(owned.addr(), KernelOwnedOnHeap::fresh(data)),
    {
        let ptr = heap.insert(KernelOwnedOnHeap::new(data));
        KernelOwned { ptr, marker: PhantomData }
    }

    /// The completion state of the object, whatever the type of its data.
    pub fn state<'a, D>(&self, heap: &'a KernelHeap<D>) -> (state: &'a CompletionState)
        requires
            heap@.dom().contains(self.addr()),
        ensures
            *state == heap@[self.addr()].header.state,
    {
        &heap.get(self.ptr).unwrap().header.state
    }

    /// The object, if it is on this heap.
    pub fn object<'a, D>(&self, heap: &'a KernelHeap<D>) -> (object: Option<
        &'a KernelOwnedOnHeap<D>,
    >)
        ensures
            object == (if heap@.dom().contains(self.addr()) {
                Some(&heap@[self.addr()])
            } else {
                None
            }),
    {
        heap.get(self.ptr)
    }

    /// Exclusive access to the completion state of the object, whatever the type of its data.
    pub fn state_mut<'a, D>(&self, heap: &'a mut KernelHeap<D>) -> (state: &'a mut CompletionState)
        requires
            old(heap).wf(),
            old(heap)@.dom().contains(self.addr()),
        ensures
            *state == old(heap)@[self.addr()].header.state,
            final(heap).wf(),
            final(heap)@ == old(heap)@.insert(
                self.addr(),
                old(heap)@[self.addr()].in_state(*final(state)),
            ),
    {
        &mut heap.get_mut(self.ptr).header.state
    }

    /// Moves the payload out of the object, whatever its type, if it is still there. The handle
    /// stays good.
    pub fn take_data<D>(&self, heap: &mut KernelHeap<D>) -> (data: Option<D>)
        requires
            old(heap).wf(),
            old(heap)@.dom().contains(self.addr()),
        ensures
            final(heap).wf(),
            data == old(heap)@[self.addr()].data,
            final(heap)@ == old(heap)@.insert(self.addr(), old(heap)@[self.addr()].emptied()),
    {
        heap.get_mut(self.ptr).data.take()
    }

    /// Gives the handle back and, where it was the only one, moves the payload out of the object.
    ///
    /// While other handles exist the payload stays where it is.
    pub fn data(self, heap: &mut KernelHeap<T>) -> (data: Option<T>)
        requires
            old(heap).wf(),
            old(heap)@.dom().contains(self.addr()),
            old(heap)@[self.addr()].header.ref_count == 1 ==> old(heap)@[self.addr()].data is Some,
        ensures
            final(heap).wf(),
            final(heap)@ == released(old(heap)@, self.addr()),
            data == (if old(heap)@[self.addr()].header.ref_count == 1 {
                old(heap)@[self.addr()].data
            } else {
                None
            }),
    {
        if heap.get(self.ptr).unwrap().header.ref_count == 1 {
            heap.remove(self.ptr).data
        } else {
            self.release(heap);
            None
        }
    }

    /// The number that names the object in the kernel. The handle now belongs to the kernel side.
    pub fn to_user_data(self) -> (user_data: u64)
        ensures
            user_data == self.addr(),
    {
        self.ptr
    }

    /// Makes another handle and turns it into user data for the kernel.
    pub fn place_in_kernel<D>(&self, heap: &mut KernelHeap<D>) -> (user_data: u64)
        requires
            old(heap).wf(),
            old(heap)@.dom().contains(self.addr()),
        ensures
            final(heap).wf(),
            user_data == self.addr(),
            final(heap)@ == retained(old(heap)@, self.addr()),
    {
        let clone = self.clone(heap);
        clone.to_user_data()
    }

    /// Makes another handle to the same object.
    pub fn clone<D>(&self, heap: &mut KernelHeap<D>) -> (clone: Self)
        requires
            old(heap).wf(),
            old(heap)@.dom().contains(self.addr()),
        ensures
            final(heap).wf(),
            clone.addr() == self.addr(),
            final(heap)@ == retained(old(heap)@, self.addr()),
    {
        let object = heap.get_mut(self.ptr);
        object.header.ref_count = object.header.ref_count.wrapping_add(1);
        KernelOwned { ptr: self.ptr, marker: PhantomData }
    }

    /// Gives the handle back. The last handle takes the object, and its payload, with it.
    pub fn release<D>(self, heap: &mut KernelHeap<D>)
        requires
            old(heap).wf(),
            old(heap)@.dom().contains(self.addr()),
        ensures
            final(heap).wf(),
            final(heap)@ == released(old(heap)@, self.addr()),
    {
        let _ = self.reclaim(heap);
    }

    /// Gives the handle back. The last handle takes the object off the heap, and it is returned,
    /// so that the caller says when its payload is dropped.
    pub fn reclaim<D>(self, heap: &mut KernelHeap<D>) -> (object: Option<KernelOwnedOnHeap<D>>)
        requires
            old(heap).wf(),
            old(heap)@.dom().contains(self.addr()),
        ensures
            final(heap).wf(),
            final(heap)@ == released(old(heap)@, self.addr()),
            object == reclaimed(old(heap)@, self.addr()),
    {
        let object = heap.get_mut(self.ptr);
        let before: usize = object.header.ref_count;
        if before == 1 {
            Some(heap.remove(self.ptr))
        } else {
            object.header.ref_count = before.wrapping_sub(1);
            None
        }
    }
}

impl KernelOwned<()> {
    /// The handle that `user_data` stands for, with the type of the payload forgotten.
    pub closed spec fn named(user_data: u64) -> Self {
        KernelOwned { ptr: user_data, marker: PhantomData }
    }

    /// Turns user data back into the handle that it was made from.
    pub fn from_user_data(user_data: u64) -> (owned: Self)
        requires
            user_data != 0,
        ensures
            owned == Self::named(user_data),
            owned.addr() == user_data,
    {
        KernelOwned { ptr: user_data, marker: PhantomData }
    }
}

/// User data leads back to the object: the handle that [`KernelOwned::from_user_data`] makes of
/// what [`KernelOwned::to_user_data`] returned has the address of the original handle.
pub proof fn law_user_data_round_trip<T>(owned: KernelOwned<T>)
    ensures
        KernelOwned::<()>::named(owned.addr()).addr() == owned.addr(),
{
}

/// Making a handle and giving it back leaves every object as it was.
pub proof fn law_clone_then_release<T>(objects: Map<u64, KernelOwnedOnHeap<T>>, addr: u64)
    requires
        objects.dom().contains(addr),
        objects[addr].header.ref_count != 0,
    ensures
        released(retained(objects, addr), addr) == objects,
{
    assert(released(retained(objects, addr), addr) =~= objects);
}

/// What can happen to the handles of one object.
pub enum HandleOp {
    /// Another handle is made.
    Clone,
    /// A handle is given back.
    Release,
}

/// The objects after `ops` happened to the handles of the one at `addr`, in order.
pub open spec fn after_handle_ops<T>(
    objects: Map<u64, KernelOwnedOnHeap<T>>,
    addr: u64,
    ops: Seq<HandleOp>,
) -> Map<u64, KernelOwnedOnHeap<T>>
    decreases ops.len(),
{
    if ops.len() == 0 {
        objects
    } else {
        let before = after_handle_ops(objects, addr, ops.drop_last());
        match ops.last() {
            HandleOp::Clone => retained(before, addr),
            HandleOp::Release => released(before, addr),
        }
    }
}

/// How many handles there are after `ops`, if there were `handles` before.
pub open spec fn handles_after(handles: int, ops: Seq<HandleOp>) -> int
    decreases ops.len(),
{
    if ops.len() == 0 {
        handles
    } else {
        let before = handles_after(handles, ops.drop_last());
        match ops.last() {
            HandleOp::Clone => before + 1,
            HandleOp::Release => before - 1,
        }
    }
}

/// An object lives exactly as long as it has handles: in whatever order handles are made and
/// given back, the object is freed by the release of the last one and not before, its state and
/// payload stay what they were, and no other object is touched.
pub proof fn law_freed_with_the_last_handle<T>(
    objects: Map<u64, KernelOwnedOnHeap<T>>,
    addr: u64,
    ops: Seq<HandleOp>,
)
    requires
        objects.dom().contains(addr),
        forall|n: int|
            0 <= n < ops.len() ==> 0 < #[trigger] handles_after(
                objects[addr].header.ref_count as int,
                ops.take(n),
            ),
        forall|n: int|
            0 <= n <= ops.len() ==> #[trigger] handles_after(
                objects[addr].header.ref_count as int,
                ops.take(n),
            ) <= usize::MAX,
    ensures
        after_handle_ops(objects, addr, ops) == ({
            let handles = handles_after(objects[addr].header.ref_count as int, ops);
            if handles == 0 && ops.len() > 0 {
                objects.remove(addr)
            } else {
                objects.insert(addr, objects[addr].counting(handles as usize))
            }
        }),
    decreases ops.len(),
{
    let count = objects[addr].header.ref_count as int;
    assert(ops.take(ops.len() as int) =~= ops);
    if ops.len() == 0 {
        assert(after_handle_ops(objects, addr, ops) =~= objects.insert(
            addr,
            objects[addr].counting(count as usize),
        ));
    } else {
        let init = ops.drop_last();
        assert forall|n: int| 0 <= n <= init.len() implies init.take(n) == #[trigger] ops.take(n) by {
            assert(init.take(n) =~= ops.take(n));
        }
        assert forall|n: int| 0 <= n < init.len() implies 0 < #[trigger] handles_after(
            count,
            init.take(n),
        ) by {
            assert(init.take(n) == ops.take(n));
        }
        assert forall|n: int| 0 <= n <= init.len() implies #[trigger] handles_after(
            count,
            init.take(n),
        ) <= usize::MAX by {
            assert(init.take(n) == ops.take(n));
        }
        law_freed_with_the_last_handle(objects, addr, init);
        assert(init.take(init.len() as int) =~= init);
        assert(handles_after(count, ops.take(init.len() as int)) > 0);
        assert(handles_after(count, ops.take(ops.len() as int)) <= usize::MAX);
        let handles = handles_after(count, ops);
        let before = after_handle_ops(objects, addr, init);
        assert(after_handle_ops(objects, addr, ops) =~= if handles == 0 {
            objects.remove(addr)
        } else {
            objects.insert(addr, objects[addr].counting(handles as usize))
        });
    }
}

} // verus!
