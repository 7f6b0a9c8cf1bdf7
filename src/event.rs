//! A queue of events of one type: pushed during a tick, drained by the
//! system that handles them. A program keeps one bus per event type.
use vstd::prelude::*;

verus! {

/// Pending events of type `E`, oldest first.
pub struct EventBus<E> {
    queue: Vec<E>,
}

impl<E> View for EventBus<E> {
    type V = Seq<E>;

    closed spec fn view(&self) -> Seq<E> {
        self.queue@
    }
}

impl<E> EventBus<E> {
    /// No pending events.
    pub fn new() -> (r: Self)
        ensures
            r@ == Seq::<E>::empty(),
    {
        EventBus { queue: Vec::new() }
    }

    /// Queues `e` after the pending events.
    pub fn push(&mut self, e: E)
        ensures
            final(self)@ == old(self)@.push(e),
    {
        self.queue.push(e);
    }

    /// Takes every pending event, oldest first, leaving none.
    pub fn drain(&mut self) -> (r: Vec<E>)
        ensures
            r@ == old(self)@,
            final(self)@ == Seq::<E>::empty(),
    {
        let mut out: Vec<E> = Vec::new();
        std::mem::swap(&mut out, &mut self.queue);
        out
    }
}

} // verus!
