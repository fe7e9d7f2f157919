use crate::action::FMAction;
use vstd::prelude::*;

verus! {

/// The subscribers, in the order in which they registered.
pub struct EventBus<F> {
    listeners: Vec<F>,
}

impl<F> View for EventBus<F> {
    type V = Seq<F>;

    closed spec fn view(&self) -> Seq<F> {
        self.listeners@
    }
}

impl<F: Fn(&FMAction)> EventBus<F> {
    /// A bus without subscribers.
    pub fn new() -> (r: Self)
        ensures
            r@ == Seq::<F>::empty(),
    {
        EventBus { listeners: Vec::new() }
    }

    /// Number of subscribers.
    pub fn len(&self) -> (r: usize)
        ensures
            r == self@.len(),
    {
        self.listeners.len()
    }

    /// Registers a subscriber behind those that are there.
    pub fn listen(&mut self, callback: F)
        ensures
            final(self)@ == old(self)@.push(callback),
    {
        self.listeners.push(callback);
    }

    /// Hands an event to every subscriber, in the order of registration.
    pub fn emit_action(&self, action: &FMAction)
        requires
            forall|i: int| 0 <= i < self@.len() ==> call_requires(#[trigger] self@[i], (action,)),
        ensures
            forall|i: int| 0 <= i < self@.len() ==> call_ensures(#[trigger] self@[i], (action,), ()),
    {
        let mut i: usize = 0;
        while i < self.listeners.len()
            invariant
                i <= self.listeners.len(),
                forall|j: int|
                    0 <= j < self@.len() ==> call_requires(#[trigger] self@[j], (action,)),
                forall|j: int| 0 <= j < i ==> call_ensures(#[trigger] self@[j], (action,), ()),
            decreases self.listeners.len() - i,
        {
            let callback: &F = &self.listeners[i];
            assert(*callback == self@[i as int]);
            callback(action);
            i += 1;
        }
    }

    /// Drops every subscriber.
    pub fn clear(&mut self)
        ensures
            final(self)@ == Seq::<F>::empty(),
    {
        self.listeners.clear();
    }
}

} // verus!
