//! Loaded resources of one type, addressed by handles that are never
//! reused. A program keeps one manager per resource type.
use vstd::prelude::*;

verus! {

/// Refers to a resource held by a manager.
#[derive(Debug, Clone, Copy, PartialEq, Eq, Structural)]
pub struct Handle {
    pub id: u64,
}

/// Resources of type `T` by handle.
pub struct ResourceManager<T> {
    next_id: u64,
    items: Vec<(u64, T)>,
}

impl<T> ResourceManager<T> {
    /// The handle number the next insert returns; all earlier ones are below it.
    pub closed spec fn spec_next_id(&self) -> u64 {
        self.next_id
    }

    /// The held resources with their handle numbers, in insertion order.
    pub closed spec fn items(&self) -> Seq<(u64, T)> {
        self.items@
    }

    /// Handle numbers are increasing and below the next one.
    pub closed spec fn wf(&self) -> bool {
        &&& forall|k: int| 0 <= k < self.items@.len() ==> (#[trigger] self.items@[k]).0 < self.next_id
        &&& forall|k: int| 0 <= k < self.items@.len() ==> (#[trigger] self.items@[k]).0 == k
        &&& self.next_id == self.items@.len()
    }

    /// Nothing held.
    pub fn new() -> (r: Self)
        ensures
            r.wf(),
            r.items().len() == 0,
            r.spec_next_id() == 0,
    {
        ResourceManager { next_id: 0, items: Vec::new() }
    }

    /// Holds `value` under a fresh handle.
    pub fn insert(&mut self, value: T) -> (r: Handle)
        requires
            old(self).wf(),
            old(self).spec_next_id() < u64::MAX,
        ensures
            final(self).wf(),
            r.id == old(self).spec_next_id(),
            final(self).items() == old(self).items().push((r.id, value)),
            final(self).spec_next_id() == old(self).spec_next_id() + 1,
    {
        let id = self.next_id;
        self.next_id = self.next_id + 1;
        self.items.push((id, value));
        Handle { id }
    }

    /// The resource of handle `h`, if held here.
    pub fn get(&self, h: &Handle) -> (r: Option<&T>)
        requires
            self.wf(),
        ensures
            h.id < self.items().len() ==> r == Some(&self.items()[h.id as int].1),
            h.id >= self.items().len() ==> r is None,
    {
        if (h.id as u128) < (self.items.len() as u128) {
            Some(&self.items[h.id as usize].1)
        } else {
            None
        }
    }
}

} // verus!
