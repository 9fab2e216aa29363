//! How the ring of a thread comes into being.

use vstd::prelude::*;

verus! {

/// The number of submission entries of a ring that is built without a custom initializer.
pub const DEFAULT_ENTRIES: u32 = 0x400;

/// Decides how rings are built: `F` is the custom way, if one was set.
pub struct Initializer<F> {
    call_count: u32,
    init: Option<F>,
}

impl<F> Initializer<F> {
    /// How many rings were initialized.
    pub closed spec fn call_count(&self) -> u32 {
        self.call_count
    }

    /// The custom initializer.
    pub closed spec fn custom(&self) -> Option<F> {
        self.init
    }

    /// No ring yet and no custom initializer.
    pub fn new() -> (initializer: Self)
        ensures
            initializer.call_count() == 0,
            initializer.custom() is None,
    {
        Initializer { call_count: 0, init: None }
    }

    /// Whether [`Initializer::set_init`] may still be called.
    pub fn is_unused(&self) -> (unused: bool)
        ensures
            unused == (self.call_count() == 0),
    {
        self.call_count == 0
    }

    /// Whether another ring can be counted.
    pub fn has_room(&self) -> (room: bool)
        ensures
            room == (self.call_count() < u32::MAX),
    {
        self.call_count < u32::MAX
    }

    /// Builds a ring: with the custom initializer if there is one, else with `def_init`.
    pub fn initialize<B, U, D: Fn(B) -> U>(&mut self, def_init: D, builder: B) -> (ring: U) where
        F: Fn(B) -> U,

        requires
            old(self).call_count() < u32::MAX,
            match old(self).custom() {
                Some(init) => call_requires(init, (builder,)),
                None => call_requires(def_init, (builder,)),
            },
        ensures
            final(self).call_count() == old(self).call_count() + 1,
            final(self).custom() == old(self).custom(),
            match old(self).custom() {
                Some(init) => call_ensures(init, (builder,), ring),
                None => call_ensures(def_init, (builder,), ring),
            },
    {
        self.call_count += 1;
        if let Some(ref init) = self.init {
            return init(builder);
        }
        def_init(builder)
    }

    /// Sets the custom initializer, which is possible only until the first ring is initialized.
    pub fn set_init(&mut self, init: F)
        requires
            old(self).call_count() == 0,
        ensures
            final(self).call_count() == 0,
            final(self).custom() == Some(init),
    {
        self.init = Some(init);
    }
}

/// A thread's ring.
pub struct Runtime<U> {
    uring: U,
}

impl<U> Runtime<U> {
    /// The ring.
    pub closed spec fn uring(&self) -> U {
        self.uring
    }

    /// A runtime with a ring of its own, built from `builder` as `initializer` decides.
    pub fn new<B, F: Fn(B) -> U, D: Fn(B) -> U>(
        initializer: &mut Initializer<F>,
        def_init: D,
        builder: B,
    ) -> (runtime: Self)
        requires
            old(initializer).call_count() < u32::MAX,
            match old(initializer).custom() {
                Some(init) => call_requires(init, (builder,)),
                None => call_requires(def_init, (builder,)),
            },
        ensures
            final(initializer).call_count() == old(initializer).call_count() + 1,
            final(initializer).custom() == old(initializer).custom(),
            match old(initializer).custom() {
                Some(init) => call_ensures(init, (builder,), runtime.uring()),
                None => call_ensures(def_init, (builder,), runtime.uring()),
            },
    {
        let uring = Runtime::init(initializer, def_init, builder);
        Runtime { uring }
    }

    fn init<B, F: Fn(B) -> U, D: Fn(B) -> U>(
        initializer: &mut Initializer<F>,
        def_init: D,
        builder: B,
    ) -> (uring: U)
        requires
            old(initializer).call_count() < u32::MAX,
            match old(initializer).custom() {
                Some(init) => call_requires(init, (builder,)),
                None => call_requires(def_init, (builder,)),
            },
        ensures
            final(initializer).call_count() == old(initializer).call_count() + 1,
            final(initializer).custom() == old(initializer).custom(),
            match old(initializer).custom() {
                Some(init) => call_ensures(init, (builder,), uring),
                None => call_ensures(def_init, (builder,), uring),
            },
    {
        initializer.initialize(def_init, builder)
    }

    /// Sets a custom initializer for the rings. This can only be called before any runtime is
    /// initialized. Runtimes of threads come into being when they are first used, so this has to
    /// happen before any of them is.
    pub fn set_init<F>(initializer: &mut Initializer<F>, init: F)
        requires
            old(initializer).call_count() == 0,
        ensures
            final(initializer).call_count() == 0,
            final(initializer).custom() == Some(init),
    {
        initializer.set_init(init);
    }

    /// Exclusive access to the ring.
    pub fn uring_mut(&mut self) -> (uring: &mut U)
        ensures
            *uring == old(self).uring(),
            final(self).uring() == *final(uring),
    {
        &mut self.uring
    }
}

} // verus!
