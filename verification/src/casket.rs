//! Values that know whether they have to be dropped.

use core::ops::Deref;

use vstd::prelude::*;

verus! {

/// `core::mem::needs_drop`: whether dropping a value of type `T` may do anything. The answer is
/// the compiler's; nothing is stated of it.
#[verifier::external_body]
fn needs_drop<T>() -> (needed: bool) {
    core::mem::needs_drop::<T>()
}

/// A value together with the knowledge whether it has to be dropped.
pub struct Casket<T> {
    drop: bool,
    data: T,
}

impl<T> View for Casket<T> {
    type V = T;

    /// The wrapped value.
    closed spec fn view(&self) -> T {
        self.data
    }
}

impl<T> Casket<T> {
    /// Whether the value has to be dropped.
    pub closed spec fn has_drop(&self) -> bool {
        self.drop
    }

    /// Whether `needed` is an answer to the question whether dropping a `T` may do anything.
    pub closed spec fn drop_needed(needed: bool) -> bool {
        call_ensures(needs_drop::<T>, (), needed)
    }

    /// Wraps `data`, and notes whether its type needs to be dropped.
    pub fn new(data: T) -> (casket: Self)
        ensures
            casket@ == data,
            Self::drop_needed(casket.has_drop()),
    {
        Casket::with_drop(needs_drop::<T>(), data)
    }

    /// Wraps `data`, which has to be dropped if `drop` says so.
    pub fn with_drop(drop: bool, data: T) -> (casket: Self)
        ensures
            casket@ == data,
            casket.has_drop() == drop,
    {
        Casket { drop, data }
    }

    /// Exclusive access to the wrapped value.
    pub fn deref_mut(&mut self) -> (data: &mut T)
        ensures
            *data == old(self)@,
            final(self)@ == *final(data),
            final(self).has_drop() == old(self).has_drop(),
    {
        &mut self.data
    }

    /// Opens the casket for good. A value that has to be dropped comes out, and is dropped when
    /// the caller is done with it; one that has not just ends.
    pub fn into_dropped(self) -> (dropped: Option<T>)
        ensures
            dropped == (if self.has_drop() {
                Some(self@)
            } else {
                None
            }),
    {
        if self.drop {
            Some(self.data)
        } else {
            None
        }
    }
}

/// A casket that is made of a value alone keeps what `core::mem::needs_drop` answers for the value's
/// type: the value comes out again if and only if that is `true`.
proof fn law_casket_asks_whether_to_drop<T>(data: T, casket: Casket<T>, dropped: Option<T>)
    requires
        call_ensures(Casket::<T>::new, (data,), casket),
        call_ensures(Casket::<T>::into_dropped, (casket,), dropped),
    ensures
        call_ensures(needs_drop::<T>, (), dropped is Some),
{
}

impl<T> Deref for Casket<T> {
    type Target = T;

    /// Shared access to the wrapped value.
    fn deref(&self) -> (data: &T)
        ensures
            *data == self@,
    {
        &self.data
    }
}

} // verus!
