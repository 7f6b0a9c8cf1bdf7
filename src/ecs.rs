//! Entity ids and the component world.
//!
//! A world mints entity ids; each component type is kept in its own table
//! keyed by entity id.
use vstd::prelude::*;

verus! {

/// Opaque entity id, minted by a world in increasing order.
#[derive(Debug, Clone, Copy, PartialEq, Eq, Hash, Structural)]
pub struct EntityId(pub u64);

/// Index of the entry for `id`, or -1.
pub open spec fn slot_of<C>(s: Seq<(EntityId, C)>, id: EntityId) -> int
    decreases s.len(),
{
    if s.len() == 0 {
        -1
    } else if s.last().0 == id {
        s.len() - 1
    } else {
        slot_of(s.drop_last(), id)
    }
}

/// No entity id occurs twice.
pub open spec fn ids_unique<C>(s: Seq<(EntityId, C)>) -> bool {
    forall|i: int, j: int| 0 <= i < j < s.len() ==> s[i].0 != s[j].0
}

/// Where `slot_of` points, for a table with unique ids.
pub proof fn lemma_slot_of<C>(s: Seq<(EntityId, C)>, id: EntityId)
    requires
        ids_unique(s),
    ensures
        -1 <= slot_of(s, id) < s.len(),
        slot_of(s, id) >= 0 ==> s[slot_of(s, id)].0 == id,
        slot_of(s, id) < 0 ==> forall|i: int| 0 <= i < s.len() ==> s[i].0 != id,
        forall|i: int| 0 <= i < s.len() && s[i].0 == id ==> slot_of(s, id) == i,
    decreases s.len(),
{
    if s.len() > 0 {
        let t = s.drop_last();
        assert forall|i: int| 0 <= i < t.len() implies t[i] == s[i] by {}
        assert(ids_unique(t));
        lemma_slot_of(t, id);
        if s.last().0 != id {
            assert forall|i: int| 0 <= i < s.len() && s[i].0 == id implies slot_of(s, id) == i by {
                assert(i < t.len());
            }
        } else {
            assert forall|i: int| 0 <= i < s.len() && s[i].0 == id implies slot_of(s, id) == i by {
                if i < s.len() - 1 {
                    assert(s[i].0 != s[s.len() - 1].0);
                }
            }
        }
    }
}

/// Entities and one component type: mints entity ids (never reusing one)
/// and maps entity ids to components, one entry per id, in insertion order.
/// A program keeps one world per component type it stores.
pub struct World<C> {
    next_id: u64,
    entries: Vec<(EntityId, C)>,
}

impl<C> View for World<C> {
    type V = Seq<(EntityId, C)>;

    closed spec fn view(&self) -> Seq<(EntityId, C)> {
        self.entries@
    }
}

/// The component of `id` in the table `s`, if any.
pub open spec fn component_of<C>(s: Seq<(EntityId, C)>, id: EntityId) -> Option<C> {
    let i = slot_of(s, id);
    if i < 0 {
        None
    } else {
        Some(s[i].1)
    }
}

impl<C> World<C> {
    /// The id that the next spawn returns; every id handed out so far is
    /// below it.
    pub closed spec fn next_id(&self) -> u64 {
        self.next_id
    }

    /// A world that has spawned nothing and holds no component.
    pub fn new() -> (r: Self)
        ensures
            r@ == Seq::<(EntityId, C)>::empty(),
            r.next_id() == 0,
            r.wf(),
    {
        World { next_id: 0, entries: Vec::new() }
    }

    /// Each id has at most one entry, and every stored id was minted here.
    pub open spec fn wf(&self) -> bool {
        &&& ids_unique(self@)
        &&& forall|k: int| 0 <= k < self@.len() ==> (#[trigger] self@[k]).0.0 < self.next_id()
    }

    /// Whether another id can be minted.
    pub fn has_room(&self) -> (r: bool)
        ensures
            r <==> self.next_id() < u64::MAX,
    {
        self.next_id < u64::MAX
    }

    /// Allocates a fresh entity id, larger than every id spawned before.
    pub fn spawn(&mut self) -> (r: EntityId)
        requires
            old(self).next_id() < u64::MAX,
        ensures
            r.0 == old(self).next_id(),
            final(self).next_id() == old(self).next_id() + 1,
            final(self)@ == old(self)@,
            old(self).wf() ==> final(self).wf() && component_of(final(self)@, r) is None,
    {
        let id = EntityId(self.next_id);
        self.next_id = self.next_id + 1;
        proof {
            if old(self).wf() {
                lemma_slot_of(self@, id);
                let k = slot_of(self@, id);
                if k >= 0 {
                    assert(self@[k].0.0 < old(self).next_id());
                }
            }
        }
        id
    }

    fn find(&self, id: EntityId) -> (r: Option<usize>)
        requires
            self.wf(),
        ensures
            match r {
                Some(i) => i == slot_of(self@, id) && i < self@.len(),
                None => slot_of(self@, id) < 0,
            },
    {
        proof { lemma_slot_of(self@, id); }
        let mut i: usize = 0;
        while i < self.entries.len()
            invariant
                i <= self@.len(),
                self.wf(),
                forall|j: int| 0 <= j < i ==> self@[j].0 != id,
            decreases self@.len() - i,
        {
            if self.entries[i].0 == id {
                proof { lemma_slot_of(self@, id); }
                return Some(i);
            }
            i = i + 1;
        }
        None
    }

    /// Attaches `c` to `id` (an entity this world spawned), replacing an
    /// earlier component of the entity.
    pub fn insert(&mut self, id: EntityId, c: C)
        requires
            old(self).wf(),
            id.0 < old(self).next_id(),
        ensures
            final(self).wf(),
            component_of(final(self)@, id) == Some(c),
            forall|other: EntityId|
                other != id ==> component_of(final(self)@, other) == component_of(old(self)@, other),
            slot_of(old(self)@, id) >= 0 ==> final(self)@ == old(self)@.update(slot_of(old(self)@, id), (id, c)),
            slot_of(old(self)@, id) < 0 ==> final(self)@ == old(self)@.push((id, c)),
            final(self).next_id() == old(self).next_id(),
    {
        proof { lemma_slot_of(self@, id); }
        match self.find(id) {
            Some(i) => {
                self.entries[i] = (id, c);
            },
            None => {
                self.entries.push((id, c));
            },
        }
        proof {
            lemma_slot_of(self@, id);
            assert forall|other: EntityId| other != id implies component_of(self@, other)
                == component_of(old(self)@, other) by {
                lemma_slot_of(self@, other);
                lemma_slot_of(old(self)@, other);
                if slot_of(old(self)@, other) >= 0 {
                    assert(self@[slot_of(old(self)@, other)].0 == other);
                }
            }
        }
    }

    /// The component of `id`, if it has one.
    pub fn get(&self, id: EntityId) -> (r: Option<&C>)
        requires
            self.wf(),
        ensures
            match r {
                Some(c) => component_of(self@, id) == Some(*c),
                None => component_of(self@, id) is None,
            },
    {
        match self.find(id) {
            Some(i) => Some(&self.entries[i].1),
            None => None,
        }
    }

    /// Replaces the component of `id` when it has one; reports whether it did.
    pub fn set(&mut self, id: EntityId, c: C) -> (r: bool)
        requires
            old(self).wf(),
        ensures
            final(self).wf(),
            r <==> component_of(old(self)@, id) is Some,
            r ==> final(self)@ == old(self)@.update(slot_of(old(self)@, id), (id, c)),
            !r ==> final(self)@ == old(self)@,
            final(self).next_id() == old(self).next_id(),
    {
        match self.find(id) {
            Some(i) => {
                proof { lemma_slot_of(self@, id); }
                self.entries[i] = (id, c);
                assert forall|a: int, b: int| 0 <= a < b < self@.len() implies self@[a].0 != self@[b].0 by {
                    assert(self@[a].0 == old(self)@[a].0);
                    assert(self@[b].0 == old(self)@[b].0);
                }
                true
            },
            None => false,
        }
    }

    /// Number of entities with this component.
    pub fn len(&self) -> (r: usize)
        ensures
            r == self@.len(),
    {
        self.entries.len()
    }

    /// The component of `id`, to change it in place.
    pub fn get_mut(&mut self, id: EntityId) -> (r: Option<&mut C>)
        requires
            old(self).wf(),
        ensures
            ({
                let i = slot_of(old(self)@, id);
                &&& i < 0 ==> r is None && final(self)@ == old(self)@
                &&& i >= 0 ==> (r matches Some(c) && *c == old(self)@[i].1
                    && final(self)@ == old(self)@.update(i, (id, *final(c))))
            }),
            final(self).next_id() == old(self).next_id(),
    {
        proof { lemma_slot_of(self@, id); }
        match self.find(id) {
            Some(i) => Some(&mut self.entries[i].1),
            None => None,
        }
    }

    /// Every entity with the component, and the component, in table order.
    pub fn iter(&self) -> (r: &[(EntityId, C)])
        ensures
            r@ == self@,
    {
        self.entries.as_slice()
    }
}

} // verus!
