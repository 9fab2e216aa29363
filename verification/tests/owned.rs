use std::cell::Cell;
use std::rc::Rc;

use vilya::future::CompletionState;
use vilya::owned::{KernelHeap, KernelOwned, KernelOwnedOnHeap};

/// Counts how often values of it are dropped.
struct Checker {
    drops: Rc<Cell<usize>>,
}

impl Drop for Checker {
    fn drop(&mut self) {
        self.drops.set(self.drops.get() + 1);
    }
}

#[test]
fn kernel_owned_size_is_u64() {
    let mut heap = KernelHeap::new();
    let owned = KernelOwned::new(&mut heap, Vec::<u8>::with_capacity(1024));
    assert_eq!(std::mem::size_of::<u64>(), std::mem::size_of_val(&owned));
}

#[test]
fn a_new_object_has_one_handle_and_nothing_submitted() {
    let object = KernelOwnedOnHeap::new(7u8);
    assert_eq!(object.header.ref_count, 1);
    assert_eq!(object.header.state, CompletionState::Unsubmitted);
    assert_eq!(object.data, Some(7));
}

#[test]
fn clones_through_user_data_drop_once() {
    let drops = Rc::new(Cell::new(0usize));
    let mut heap = KernelHeap::new();
    let checker = KernelOwned::new(&mut heap, Checker { drops: drops.clone() });
    let mut in_flight = Vec::new();
    for _ in 0..100 {
        let clone = checker.clone(&mut heap);
        in_flight.push(clone.to_user_data());
    }
    assert_eq!(checker.object(&heap).unwrap().header.ref_count, 101);
    for user_data in in_flight {
        let tmp = KernelOwned::from_user_data(user_data);
        for _ in 0..1_000 {
            tmp.clone(&mut heap).release(&mut heap);
        }
        tmp.release(&mut heap);
        assert_eq!(drops.get(), 0);
    }
    checker.release(&mut heap);
    assert_eq!(drops.get(), 1);
}

#[test]
fn data_comes_out_only_of_the_last_handle() {
    let mut heap = KernelHeap::new();
    let owned = KernelOwned::new(&mut heap, String::from("payload"));
    let clone = owned.clone(&mut heap);
    assert_eq!(clone.data(&mut heap), None);
    assert_eq!(owned.object(&heap).unwrap().header.ref_count, 1);
    let addr = owned.place_in_kernel(&mut heap);
    KernelOwned::from_user_data(addr).release(&mut heap);
    assert_eq!(owned.data(&mut heap), Some(String::from("payload")));
    assert!(heap.get(addr).is_none());
}

#[test]
fn user_data_names_the_same_object() {
    let mut heap = KernelHeap::new();
    let first = KernelOwned::new(&mut heap, 1u32);
    let second = KernelOwned::new(&mut heap, 2u32);
    let user_data = second.place_in_kernel(&mut heap);
    assert_ne!(user_data, 0);
    let erased = KernelOwned::from_user_data(user_data);
    *erased.state_mut(&mut heap) = CompletionState::Completed { result: 5 };
    assert_eq!(*second.state(&heap), CompletionState::Completed { result: 5 });
    assert_eq!(*first.state(&heap), CompletionState::Unsubmitted);
    assert_eq!(second.object(&heap).unwrap().header.ref_count, 2);
    assert_eq!(first.object(&heap).unwrap().header.ref_count, 1);
    assert_eq!(erased.to_user_data(), user_data);
}

#[test]
fn freed_addresses_are_used_again() {
    let mut heap = KernelHeap::new();
    let first = KernelOwned::new(&mut heap, 'a');
    let second = KernelOwned::new(&mut heap, 'b');
    let first_addr = first.place_in_kernel(&mut heap);
    KernelOwned::from_user_data(first_addr).release(&mut heap);
    first.release(&mut heap);
    assert!(heap.get(first_addr).is_none());
    let third = KernelOwned::new(&mut heap, 'c');
    assert_eq!(third.place_in_kernel(&mut heap), first_addr);
    assert_eq!(second.object(&heap).unwrap().data, Some('b'));
    assert_eq!(third.object(&heap).unwrap().data, Some('c'));
    assert!(heap.get(0).is_none());
    assert!(heap.get(1_000).is_none());
}

#[test]
fn taken_data_leaves_the_object() {
    let mut heap = KernelHeap::new();
    let owned = KernelOwned::new(&mut heap, 9u8);
    assert_eq!(owned.take_data(&mut heap), Some(9));
    assert_eq!(owned.take_data(&mut heap), None);
    assert_eq!(owned.object(&heap).unwrap().header.ref_count, 1);
}

#[test]
fn only_the_last_handle_hands_the_object_out() {
    let mut heap = KernelHeap::new();
    let owned = KernelOwned::new(&mut heap, 9u8);
    let clone = owned.clone(&mut heap);
    assert!(owned.reclaim(&mut heap).is_none());
    let object = clone.reclaim(&mut heap).unwrap();
    assert_eq!(object.data, Some(9));
    assert_eq!(object.header.ref_count, 1);
}
