//! Snapshots of replicated state and the client's bounded snapshot history.
//!
//! A position is kept abstract (`P`): the library decides which entries are
//! blended, and the caller does the arithmetic on the coordinates.
use std::collections::VecDeque;
use vstd::prelude::*;

use crate::ecs::EntityId;

verus! {

/// One replicated entity: its id and its position.
#[derive(Debug, Clone, Copy, PartialEq)]
pub struct EntityState<P> {
    pub id: EntityId,
    pub position: P,
}

/// World state at a tick boundary: the tick and an ordered list of entities.
#[derive(Debug, Clone, PartialEq)]
pub struct Snapshot<P> {
    pub tick: u32,
    pub entities: Vec<EntityState<P>>,
}

/// The first entry of `s` whose id is `id`, if any.
pub open spec fn entry_of<P>(s: Seq<EntityState<P>>, id: EntityId) -> Option<EntityState<P>> {
    if exists|i: int| 0 <= i < s.len() && s[i].id == id {
        let i = choose|i: int|
            0 <= i < s.len() && s[i].id == id && forall|j: int| 0 <= j < i ==> s[j].id != id;
        Some(s[i])
    } else {
        None
    }
}

/// Finds the state of entity `id` in a snapshot (the first entry with that id).
pub fn find_entity<P: Copy>(snap: &Snapshot<P>, id: EntityId) -> (r: Option<EntityState<P>>)
    ensures
        r == entry_of(snap.entities@, id),
{
    let ghost s = snap.entities@;
    let mut i: usize = 0;
    while i < snap.entities.len()
        invariant
            i <= s.len(),
            s == snap.entities@,
            forall|j: int| 0 <= j < i ==> s[j].id != id,
        decreases s.len() - i,
    {
        let e = snap.entities[i];
        if e.id == id {
            proof {
                let k = choose|k: int|
                    0 <= k < s.len() && s[k].id == id && forall|j: int| 0 <= j < k ==> s[j].id != id;
                assert(0 <= i < s.len() && s[i as int].id == id);
                if k < i {
                    assert(s[k].id != id);
                } else if k > i {
                    assert(s[i as int].id != id);
                }
            }
            return Some(e);
        }
        i = i + 1;
    }
    None
}

/// The positions of entity `id` in snapshots `a` (older) and `b` (newer),
/// present only when the entity is in both.
pub open spec fn blend_pair<P>(a: Snapshot<P>, b: Snapshot<P>, id: EntityId) -> Option<(P, P)> {
    match (entry_of(a.entities@, id), entry_of(b.entities@, id)) {
        (Some(ea), Some(eb)) => Some((ea.position, eb.position)),
        _ => None,
    }
}

/// Bounded FIFO of the most recent snapshots: pushing beyond the capacity
/// drops the oldest.
pub struct SnapshotBuffer<P> {
    history: VecDeque<Snapshot<P>>,
    max: usize,
}

impl<P> View for SnapshotBuffer<P> {
    type V = Seq<Snapshot<P>>;

    closed spec fn view(&self) -> Seq<Snapshot<P>> {
        self.history@
    }
}

/// The last `n` elements of `s` (all of `s` when it is shorter).
pub open spec fn keep_last<T>(s: Seq<T>, n: nat) -> Seq<T> {
    if s.len() <= n {
        s
    } else {
        s.subrange(s.len() - n, s.len() as int)
    }
}

impl<P> SnapshotBuffer<P> {
    /// The capacity given at construction.
    pub closed spec fn capacity(&self) -> nat {
        self.max as nat
    }

    /// At most `capacity` snapshots are held.
    pub closed spec fn wf(&self) -> bool {
        self.history@.len() <= self.max
    }

    /// An empty buffer that keeps at most `max` snapshots.
    pub fn new(max: usize) -> (r: Self)
        ensures
            r.wf(),
            r@ == Seq::<Snapshot<P>>::empty(),
            r.capacity() == max,
    {
        SnapshotBuffer { history: VecDeque::new(), max }
    }

    /// Appends `snap` as the newest entry, then drops the oldest entries
    /// until at most `capacity` remain.
    pub fn push(&mut self, snap: Snapshot<P>)
        requires
            old(self).wf(),
        ensures
            final(self).wf(),
            final(self).capacity() == old(self).capacity(),
            final(self)@ == keep_last(old(self)@.push(snap), old(self).capacity()),
    {
        let ghost pushed = self.history@.push(snap);
        self.history.push_back(snap);
        if self.history.len() > self.max {
            let _ = self.history.pop_front();
            proof {
                assert(self.history@ =~= keep_last(pushed, self.max as nat));
            }
        }
    }

    /// Number of buffered snapshots.
    pub fn len(&self) -> (r: usize)
        ensures
            r == self@.len(),
    {
        self.history.len()
    }

    /// True when no snapshot is buffered.
    pub fn is_empty(&self) -> (r: bool)
        ensures
            r <==> self@.len() == 0,
    {
        self.history.len() == 0
    }

    /// The positions of entity `id` in the two newest snapshots (older
    /// first), the endpoints that an interpolation blends. `None` with fewer
    /// than two snapshots, or when the entity is missing from either.
    pub fn interp_endpoints(&self, id: EntityId) -> (r: Option<(P, P)>)
        where
            P: Copy,
        ensures
            self@.len() < 2 ==> r is None,
            self@.len() >= 2 ==> r == blend_pair(self@[self@.len() - 2], self@.last(), id),
    {
        let n = self.history.len();
        if n < 2 {
            return None;
        }
        let a = &self.history[n - 2];
        let b = &self.history[n - 1];
        let pa = find_entity(a, id);
        let pb = find_entity(b, id);
        match (pa, pb) {
            (Some(ea), Some(eb)) => Some((ea.position, eb.position)),
            _ => None,
        }
    }

    /// The snapshot at position `i`, oldest first.
    pub fn snapshot_at(&self, i: usize) -> (r: Option<&Snapshot<P>>)
        ensures
            i < self@.len() ==> r == Some(&self@[i as int]),
            i >= self@.len() ==> r is None,
    {
        if i < self.history.len() {
            Some(&self.history[i])
        } else {
            None
        }
    }

    /// The newest snapshot, if any.
    pub fn last_snapshot(&self) -> (r: Option<&Snapshot<P>>)
        ensures
            self@.len() == 0 ==> r is None,
            self@.len() > 0 ==> r == Some(&self@.last()),
    {
        let n = self.history.len();
        if n == 0 {
            None
        } else {
            Some(&self.history[n - 1])
        }
    }
}

/// What a buffer of capacity `n` holds after `items` were pushed, in order,
/// into one that held `start`.
pub open spec fn pushed_all<T>(start: Seq<T>, items: Seq<T>, n: nat) -> Seq<T>
    decreases items.len(),
{
    if items.len() == 0 {
        start
    } else {
        keep_last(pushed_all(start, items.drop_last(), n).push(items.last()), n)
    }
}

proof fn lemma_keep_last_push<T>(s: Seq<T>, x: T, n: nat)
    ensures
        keep_last(keep_last(s, n).push(x), n) =~= keep_last(s.push(x), n),
{
}

/// After any sequence of pushes into an empty buffer of capacity `n`, the
/// buffer holds the most recent `min(n, pushes)` snapshots in push order.
pub proof fn lemma_buffer_keeps_most_recent<T>(items: Seq<T>, n: nat)
    ensures
        pushed_all(Seq::<T>::empty(), items, n) == keep_last(items, n),
        pushed_all(Seq::<T>::empty(), items, n).len() == if items.len() <= n {
            items.len()
        } else {
            n
        },
    decreases items.len(),
{
    if items.len() > 0 {
        let prefix = items.drop_last();
        lemma_buffer_keeps_most_recent(prefix, n);
        lemma_keep_last_push(prefix, items.last(), n);
        assert(prefix.push(items.last()) =~= items);
    }
}

} // verus!
