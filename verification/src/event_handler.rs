//! A registry of listeners to which events are handed.

use core::marker::PhantomData;
use vstd::prelude::*;

verus! {

/// Listeners for events of type `T`, kept in the order in which they were
/// added.
///
/// A listener is a function from an event to `true` when it handled the
/// event and `false` when it failed. A failure stays with the listener: it
/// reaches neither the other listeners nor the caller of `trigger`.
pub struct EventHandler<T, F: Fn(&T) -> bool> {
    callbacks: Vec<F>,
    _event: PhantomData<T>,
}

impl<T, F: Fn(&T) -> bool> EventHandler<T, F> {
    /// The registered listeners, in the order of their registration.
    pub closed spec fn listeners(&self) -> Seq<F> {
        self.callbacks@
    }

    /// The listener `f` was called with `arg` and returned.
    pub open spec fn heard(f: F, arg: &T) -> bool {
        exists|handled: bool| call_ensures(f, (arg,), handled)
    }

    /// A handler without listeners.
    pub fn new() -> (r: Self)
        ensures
            r.listeners() == Seq::<F>::empty(),
    {
        EventHandler { callbacks: Vec::new(), _event: PhantomData }
    }

    /// Removes every listener.
    pub fn clear_listeners(&mut self)
        ensures
            final(self).listeners() == Seq::<F>::empty(),
    {
        self.callbacks.clear();
    }

    /// Adds a listener behind those already registered.
    pub fn add_listener(&mut self, callback: F)
        ensures
            final(self).listeners() == old(self).listeners().push(callback),
    {
        self.callbacks.push(callback);
    }

    /// How many listeners are registered.
    pub fn listener_count(&self) -> (n: usize)
        ensures
            n == self.listeners().len(),
    {
        self.callbacks.len()
    }

    /// Hands `arg` to every registered listener, in the order of
    /// registration. Every listener is called, also after one before it has
    /// failed.
    pub fn trigger(&self, arg: &T)
        requires
            forall|i: int|
                0 <= i < self.listeners().len() ==> call_requires(
                    #[trigger] self.listeners()[i],
                    (arg,),
                ),
        ensures
            forall|i: int|
                0 <= i < self.listeners().len() ==> Self::heard(#[trigger] self.listeners()[i], arg),
    {
        let mut i: usize = 0;
        while i < self.callbacks.len()
            invariant
                i <= self.callbacks.len(),
                self.listeners() == self.callbacks@,
                forall|j: int|
                    0 <= j < self.listeners().len() ==> call_requires(
                        #[trigger] self.listeners()[j],
                        (arg,),
                    ),
                forall|j: int| 0 <= j < i ==> Self::heard(#[trigger] self.listeners()[j], arg),
            decreases self.callbacks.len() - i,
        {
            let handled = (self.callbacks[i])(arg);
            assert(call_ensures(self.listeners()[i as int], (arg,), handled));
            i = i + 1;
        }
    }
}

} // verus!
