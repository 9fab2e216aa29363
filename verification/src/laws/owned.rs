//! What callers can rely on of objects and handles.

use vstd::prelude::*;

use crate::future::CompletionState;
use crate::owned::{KernelHeap, KernelOwned, KernelOwnedOnHeap};

verus! {

/// A new object has one handle, was not submitted, and holds the data that was given. It is where
/// no object was, and every other object stays what it was.
pub proof fn law_new_object_is_apart<T>(data: T, owned: KernelOwned<T>)
    ensures
        forall|heap: &mut KernelHeap<T>| #[trigger]
            call_ensures(KernelOwned::<T>::new, (heap, data), owned) ==> {
                &&& owned.addr() != 0
                &&& !heap@.dom().contains(owned.addr())
                &&& final(heap)@.dom() == heap@.dom().insert(owned.addr())
                &&& final(heap)@.remove(owned.addr()) == heap@
                &&& final(heap)@[owned.addr()].header.ref_count == 1
                &&& final(heap)@[owned.addr()].header.state == CompletionState::Unsubmitted
                &&& final(heap)@[owned.addr()].data == Some(data)
            },
{
}

/// An object, by itself, starts out with one handle, not submitted, with its data.
pub proof fn law_object_starts_out<T>(data: T, object: KernelOwnedOnHeap<T>)
    requires
        call_ensures(KernelOwnedOnHeap::<T>::new, (data,), object),
    ensures
        object.header.ref_count == 1,
        object.header.state == CompletionState::Unsubmitted,
        object.data == Some(data),
{
}

/// Another handle is one handle more to the same object, and changes nothing else.
pub proof fn law_clone_adds_one_handle<T, D>(owned: KernelOwned<T>, clone: KernelOwned<T>)
    ensures
        forall|heap: &mut KernelHeap<D>| #[trigger]
            call_ensures(KernelOwned::<T>::clone::<D>, (&owned, heap), clone)
                && heap@.dom().contains(owned.addr()) ==> {
                let before = heap@[owned.addr()];
                let after = final(heap)@[owned.addr()];
                &&& clone.addr() == owned.addr()
                &&& final(heap)@.dom() == heap@.dom()
                &&& final(heap)@.remove(owned.addr()) == heap@.remove(owned.addr())
                &&& after.header.state == before.header.state
                &&& after.data == before.data
                &&& before.header.ref_count < usize::MAX ==> after.header.ref_count
                    == before.header.ref_count + 1
                &&& before.header.ref_count == usize::MAX ==> after.header.ref_count == 0
            },
{
}

/// A handle for the kernel is one handle more, and the number that stands for it is the object's
/// address. Nothing else changes.
pub proof fn law_kernel_gets_one_handle<T, D>(owned: KernelOwned<T>, user_data: u64)
    ensures
        forall|heap: &mut KernelHeap<D>| #[trigger]
            call_ensures(KernelOwned::<T>::place_in_kernel::<D>, (&owned, heap), user_data)
                && heap@.dom().contains(owned.addr()) ==> {
                let before = heap@[owned.addr()];
                let after = final(heap)@[owned.addr()];
                &&& user_data == owned.addr()
                &&& final(heap)@.dom() == heap@.dom()
                &&& final(heap)@.remove(owned.addr()) == heap@.remove(owned.addr())
                &&& after.header.state == before.header.state
                &&& after.data == before.data
                &&& before.header.ref_count < usize::MAX ==> after.header.ref_count
                    == before.header.ref_count + 1
                &&& before.header.ref_count == usize::MAX ==> after.header.ref_count == 0
            },
{
}

/// The last handle that is given back takes its object along, any other is one handle less; the
/// object's state and data, and every other object, stay what they were.
pub proof fn law_release_takes_one_handle<T, D>(owned: KernelOwned<T>)
    ensures
        forall|heap: &mut KernelHeap<D>| #[trigger]
            call_ensures(KernelOwned::<T>::release::<D>, (owned, heap), ()) && heap@.dom().contains(
                owned.addr(),
            ) ==> {
                let before = heap@[owned.addr()];
                let after = final(heap)@[owned.addr()];
                &&& final(heap)@.remove(owned.addr()) == heap@.remove(owned.addr())
                &&& final(heap)@.dom().contains(owned.addr()) <==> before.header.ref_count != 1
                &&& before.header.ref_count != 1 ==> after.header.state == before.header.state
                    && after.data == before.data
                &&& before.header.ref_count > 1 ==> after.header.ref_count
                    == before.header.ref_count - 1
                &&& before.header.ref_count == 0 ==> after.header.ref_count == usize::MAX
            },
{
}

/// A handle that is given back for the object hands the object out as it was, if and only if it is
/// the last; it does to the heap what giving it back does.
pub proof fn law_last_handle_reclaims<T, D>(
    owned: KernelOwned<T>,
    object: Option<KernelOwnedOnHeap<D>>,
)
    ensures
        forall|heap: &mut KernelHeap<D>| #[trigger]
            call_ensures(KernelOwned::<T>::reclaim::<D>, (owned, heap), object)
                && heap@.dom().contains(owned.addr()) ==> {
                let before = heap@[owned.addr()];
                let after = final(heap)@[owned.addr()];
                &&& object is Some <==> before.header.ref_count == 1
                &&& object is Some ==> object->0 == before
                &&& final(heap)@.remove(owned.addr()) == heap@.remove(owned.addr())
                &&& final(heap)@.dom().contains(owned.addr()) <==> before.header.ref_count != 1
                &&& before.header.ref_count != 1 ==> after.header.state == before.header.state
                    && after.data == before.data
                &&& before.header.ref_count > 1 ==> after.header.ref_count
                    == before.header.ref_count - 1
                &&& before.header.ref_count == 0 ==> after.header.ref_count == usize::MAX
            },
{
}

/// The only handle gets the data and takes the object along; any other gets nothing, and is one
/// handle less.
pub proof fn law_only_handle_gets_the_data<T>(owned: KernelOwned<T>, data: Option<T>)
    ensures
        forall|heap: &mut KernelHeap<T>| #[trigger]
            call_ensures(KernelOwned::<T>::data, (owned, heap), data) && heap@.dom().contains(
                owned.addr(),
            ) ==> {
                let before = heap@[owned.addr()];
                let after = final(heap)@[owned.addr()];
                &&& before.header.ref_count == 1 ==> data == before.data
                &&& before.header.ref_count != 1 ==> data is None
                &&& final(heap)@.remove(owned.addr()) == heap@.remove(owned.addr())
                &&& final(heap)@.dom().contains(owned.addr()) <==> before.header.ref_count != 1
                &&& before.header.ref_count != 1 ==> after.header.state == before.header.state
                    && after.data == before.data
                &&& before.header.ref_count > 1 ==> after.header.ref_count
                    == before.header.ref_count - 1
                &&& before.header.ref_count == 0 ==> after.header.ref_count == usize::MAX
            },
{
}

/// Data that is taken is the object's; afterwards the object is without data, and nothing else
/// changed.
pub proof fn law_data_is_taken_once<T, D>(owned: KernelOwned<T>, data: Option<D>)
    ensures
        forall|heap: &mut KernelHeap<D>| #[trigger]
            call_ensures(KernelOwned::<T>::take_data::<D>, (&owned, heap), data)
                && heap@.dom().contains(owned.addr()) ==> {
                let before = heap@[owned.addr()];
                let after = final(heap)@[owned.addr()];
                &&& data == before.data
                &&& after.data is None
                &&& after.header.ref_count == before.header.ref_count
                &&& after.header.state == before.header.state
                &&& final(heap)@.dom() == heap@.dom()
                &&& final(heap)@.remove(owned.addr()) == heap@.remove(owned.addr())
            },
{
}

/// Access to a state is access to the state of the handle's object: it starts at what that is, what
/// is written there is what the object is left in, and nothing else changes.
pub proof fn law_state_access_is_exact<T, D>(owned: KernelOwned<T>)
    ensures
        forall|heap: &mut KernelHeap<D>, state: &mut CompletionState| #[trigger]
            call_ensures(KernelOwned::<T>::state_mut::<D>, (&owned, heap), state)
                && heap@.dom().contains(owned.addr()) ==> {
                let before = heap@[owned.addr()];
                let after = final(heap)@[owned.addr()];
                &&& *state == before.header.state
                &&& after.header.state == *final(state)
                &&& after.header.ref_count == before.header.ref_count
                &&& after.data == before.data
                &&& final(heap)@.dom() == heap@.dom()
                &&& final(heap)@.remove(owned.addr()) == heap@.remove(owned.addr())
            },
        forall|heap: &KernelHeap<D>, state: &CompletionState| #[trigger]
            call_ensures(KernelOwned::<T>::state::<D>, (&owned, heap), state) ==> *state
                == heap@[owned.addr()].header.state,
{
}

/// Looking for an object finds it where it is, and nothing where none is.
pub proof fn law_objects_are_found<T, D>(owned: KernelOwned<T>, heap: KernelHeap<D>, addr: u64)
    ensures
        forall|object: Option<&KernelOwnedOnHeap<D>>| #[trigger]
            call_ensures(KernelHeap::<D>::get, (&heap, addr), object) ==> {
                &&& object is Some <==> heap@.dom().contains(addr)
                &&& object is Some ==> *(object->0) == heap@[addr]
            },
        forall|object: Option<&KernelOwnedOnHeap<D>>| #[trigger]
            call_ensures(KernelOwned::<T>::object::<D>, (&owned, &heap), object) ==> {
                &&& object is Some <==> heap@.dom().contains(owned.addr())
                &&& object is Some ==> *(object->0) == heap@[owned.addr()]
            },
{
}

/// A new heap has no objects.
pub proof fn law_heap_starts_empty<T>(heap: KernelHeap<T>, addr: u64)
    requires
        call_ensures(KernelHeap::<T>::new, (), heap),
    ensures
        !heap@.dom().contains(addr),
{
}

/// The handle that is made of a handle's user data is a handle to the same object, and no two
/// objects have the same user data.
pub proof fn law_user_data_leads_back<T, S>(
    owned: KernelOwned<T>,
    user_data: u64,
    back: KernelOwned<()>,
    other: KernelOwned<S>,
    other_data: u64,
)
    requires
        call_ensures(KernelOwned::<T>::to_user_data, (owned,), user_data),
        call_ensures(KernelOwned::<()>::from_user_data, (user_data,), back),
        call_ensures(KernelOwned::<S>::to_user_data, (other,), other_data),
    ensures
        back.addr() == owned.addr(),
        user_data == other_data <==> owned.addr() == other.addr(),
{
}

/// Making a handle and giving it back leaves the heap as it was, whatever else the handle's object
/// has gone through.
pub proof fn law_clone_is_undone_by_release<T, D>(owned: KernelOwned<T>, clone: KernelOwned<T>)
    ensures
        forall|heap: &mut KernelHeap<D>, later: &mut KernelHeap<D>|
            #![trigger
                call_ensures(KernelOwned::<T>::clone::<D>, (&owned, heap), clone),
                call_ensures(KernelOwned::<T>::release::<D>, (clone, later), ())
            ]
            call_ensures(KernelOwned::<T>::clone::<D>, (&owned, heap), clone) && call_ensures(
                KernelOwned::<T>::release::<D>,
                (clone, later),
                (),
            ) && later@ == final(heap)@ && heap@.dom().contains(owned.addr())
                && heap@[owned.addr()].header.ref_count != 0 ==> final(later)@ == heap@,
{
}

} // verus!
