//! Facts about the first element of a sequence that satisfies a predicate,
//! for the in-memory tables that are searched front to back.
use vstd::prelude::*;

verus! {

/// Index of the first element at or after `i` that satisfies `p`, or -1.
pub open spec fn index_from<T>(s: Seq<T>, p: spec_fn(T) -> bool, i: int) -> int
    decreases s.len() - i,
{
    if i < 0 || i >= s.len() {
        -1
    } else if p(s[i]) {
        i
    } else {
        index_from(s, p, i + 1)
    }
}

/// Index of the first element that satisfies `p`, or -1.
pub open spec fn first_index<T>(s: Seq<T>, p: spec_fn(T) -> bool) -> int {
    index_from(s, p, 0)
}

/// A found index is in range, its element satisfies `p`, and no earlier one does.
pub proof fn lemma_found<T>(s: Seq<T>, p: spec_fn(T) -> bool, m: int)
    requires
        0 <= m,
    ensures
        -1 <= index_from(s, p, m) < s.len(),
        index_from(s, p, m) >= 0 ==> m <= index_from(s, p, m) && p(s[index_from(s, p, m)]),
        index_from(s, p, m) >= 0 ==> forall|k: int| m <= k < index_from(s, p, m) ==> !p(#[trigger] s[k]),
        index_from(s, p, m) < 0 ==> forall|k: int| m <= k < s.len() ==> !p(#[trigger] s[k]),
    decreases s.len() - m,
{
    if m < s.len() && !p(s[m]) {
        lemma_found(s, p, m + 1);
    }
}

/// Replacing elements that fail `q` by others that fail `q`, and keeping
/// the rest, keeps where `q` is first met; the same for an appended element
/// that fails `q`.
pub proof fn lemma_same_index<T>(s: Seq<T>, t: Seq<T>, q: spec_fn(T) -> bool)
    requires
        s.len() <= t.len(),
        forall|k: int| 0 <= k < s.len() ==> (q(#[trigger] t[k]) <==> q(s[k])) && (q(s[k]) ==> t[k] == s[k]),
        forall|k: int| s.len() <= k < t.len() ==> !q(#[trigger] t[k]),
    ensures
        first_index(t, q) == first_index(s, q),
        first_index(s, q) >= 0 ==> t[first_index(s, q)] == s[first_index(s, q)],
{
    lemma_same_from(s, t, q, 0);
    lemma_found(s, q, 0);
}

proof fn lemma_same_from<T>(s: Seq<T>, t: Seq<T>, q: spec_fn(T) -> bool, m: int)
    requires
        0 <= m,
        s.len() <= t.len(),
        forall|k: int| 0 <= k < s.len() ==> (q(#[trigger] t[k]) <==> q(s[k])) && (q(s[k]) ==> t[k] == s[k]),
        forall|k: int| s.len() <= k < t.len() ==> !q(#[trigger] t[k]),
    ensures
        index_from(t, q, m) == index_from(s, q, m),
    decreases t.len() - m,
{
    if m < t.len() {
        lemma_same_from(s, t, q, m + 1);
    }
}

/// After appending an element that satisfies `p` to a sequence with none,
/// it is the first.
pub proof fn lemma_push_first<T>(s: Seq<T>, p: spec_fn(T) -> bool, x: T)
    requires
        first_index(s, p) < 0,
        p(x),
    ensures
        first_index(s.push(x), p) == s.len(),
{
    lemma_found(s, p, 0);
    lemma_push_from(s, p, x, 0);
}

proof fn lemma_push_from<T>(s: Seq<T>, p: spec_fn(T) -> bool, x: T, m: int)
    requires
        0 <= m <= s.len(),
        forall|k: int| 0 <= k < s.len() ==> !p(#[trigger] s[k]),
        p(x),
    ensures
        index_from(s.push(x), p, m) == s.len(),
    decreases s.len() - m,
{
    if m < s.len() {
        assert(s.push(x)[m] == s[m]);
        lemma_push_from(s, p, x, m + 1);
    }
}

/// Overwriting the first element that satisfies `p` with another that
/// satisfies it keeps it first.
pub proof fn lemma_update_first<T>(s: Seq<T>, p: spec_fn(T) -> bool, i: int, x: T)
    requires
        first_index(s, p) == i,
        0 <= i < s.len(),
        p(x),
    ensures
        first_index(s.update(i, x), p) == i,
{
    lemma_found(s, p, 0);
    lemma_update_from(s, p, i, x, 0);
}

proof fn lemma_update_from<T>(s: Seq<T>, p: spec_fn(T) -> bool, i: int, x: T, m: int)
    requires
        0 <= m <= i < s.len(),
        forall|k: int| 0 <= k < i ==> !p(#[trigger] s[k]),
        p(x),
    ensures
        index_from(s.update(i, x), p, m) == i,
    decreases i - m,
{
    if m < i {
        lemma_update_from(s, p, i, x, m + 1);
    }
}

/// Whether an entry of a table keyed by `u32` has key `k`.
pub open spec fn key_is<T>(k: u32) -> spec_fn((u32, T)) -> bool {
    |e: (u32, T)| e.0 == k
}

/// The value of key `k` in a table searched front to back.
pub open spec fn lookup<T>(s: Seq<(u32, T)>, k: u32) -> Option<T> {
    let i = first_index(s, key_is::<T>(k));
    if i < 0 {
        None
    } else {
        Some(s[i].1)
    }
}

/// Position of the first entry with key `k`.
pub fn find_key<T>(v: &Vec<(u32, T)>, k: u32) -> (r: Option<usize>)
    ensures
        match r {
            Some(i) => i as int == first_index(v@, key_is::<T>(k)) && i < v@.len() && v@[i as int].0 == k,
            None => first_index(v@, key_is::<T>(k)) == -1,
        },
{
    let ghost p = key_is::<T>(k);
    let mut i: usize = 0;
    while i < v.len()
        invariant
            i <= v@.len(),
            p == key_is::<T>(k),
            index_from(v@, p, i as int) == first_index(v@, p),
        decreases v@.len() - i,
    {
        if v[i].0 == k {
            assert(p(v@[i as int]));
            return Some(i);
        }
        assert(!p(v@[i as int]));
        i = i + 1;
    }
    None
}

/// Sets key `k` to `x`: replaces the first entry with that key, or appends.
pub fn set_key<T>(v: &mut Vec<(u32, T)>, k: u32, x: T)
    ensures
        lookup(final(v)@, k) == Some(x),
        forall|k2: u32| k2 != k ==> #[trigger] lookup(final(v)@, k2) == lookup(old(v)@, k2),
        first_index(old(v)@, key_is::<T>(k)) >= 0 ==> final(v)@ == old(v)@.update(first_index(old(v)@, key_is::<T>(k)), (k, x)),
        first_index(old(v)@, key_is::<T>(k)) < 0 ==> final(v)@ == old(v)@.push((k, x)),
{
    let ghost s = v@;
    match find_key(v, k) {
        Some(i) => {
            v.set(i, (k, x));
            proof {
                lemma_update_first(s, key_is::<T>(k), i as int, (k, x));
                assert forall|k2: u32| k2 != k implies #[trigger] lookup(v@, k2) == lookup(s, k2) by {
                    lemma_same_index(s, v@, key_is::<T>(k2));
                }
            }
        },
        None => {
            v.push((k, x));
            proof {
                lemma_push_first(s, key_is::<T>(k), (k, x));
                assert forall|k2: u32| k2 != k implies #[trigger] lookup(v@, k2) == lookup(s, k2) by {
                    lemma_same_index(s, v@, key_is::<T>(k2));
                }
            }
        },
    }
}

/// Whether an entry of a table keyed by strings has key `k`.
pub open spec fn str_key_is<T>(k: Seq<char>) -> spec_fn((String, T)) -> bool {
    |e: (String, T)| e.0@ == k
}

/// The value of key `k` in a string-keyed table searched front to back.
pub open spec fn str_lookup<T>(s: Seq<(String, T)>, k: Seq<char>) -> Option<T> {
    let i = first_index(s, str_key_is::<T>(k));
    if i < 0 {
        None
    } else {
        Some(s[i].1)
    }
}

/// Position of the first entry with key `k`.
pub fn find_str<T>(v: &Vec<(String, T)>, k: &str) -> (r: Option<usize>)
    ensures
        match r {
            Some(i) => i as int == first_index(v@, str_key_is::<T>(k@)) && i < v@.len() && v@[i as int].0@ == k@,
            None => first_index(v@, str_key_is::<T>(k@)) == -1,
        },
{
    let key = k.to_owned();
    let ghost p = str_key_is::<T>(k@);
    let mut i: usize = 0;
    while i < v.len()
        invariant
            i <= v@.len(),
            key@ == k@,
            p == str_key_is::<T>(k@),
            index_from(v@, p, i as int) == first_index(v@, p),
        decreases v@.len() - i,
    {
        if v[i].0 == key {
            assert(p(v@[i as int]));
            return Some(i);
        }
        assert(!p(v@[i as int]));
        i = i + 1;
    }
    None
}

/// Sets key `k` to `x`: replaces the first entry with that key, or appends.
pub fn set_str<T>(v: &mut Vec<(String, T)>, k: &str, x: T)
    ensures
        str_lookup(final(v)@, k@) == Some(x),
        forall|k2: Seq<char>| k2 != k@ ==> #[trigger] str_lookup(final(v)@, k2) == str_lookup(old(v)@, k2),
        first_index(old(v)@, str_key_is::<T>(k@)) >= 0 ==> final(v)@.len() == old(v)@.len(),
        first_index(old(v)@, str_key_is::<T>(k@)) < 0 ==> final(v)@.len() == old(v)@.len() + 1,
{
    let ghost s = v@;
    let key = k.to_owned();
    match find_str(v, k) {
        Some(i) => {
            let ghost e = (key, x);
            v.set(i, (key, x));
            proof {
                lemma_update_first(s, str_key_is::<T>(k@), i as int, e);
                assert forall|k2: Seq<char>| k2 != k@ implies #[trigger] str_lookup(v@, k2) == str_lookup(s, k2) by {
                    lemma_same_index(s, v@, str_key_is::<T>(k2));
                }
            }
        },
        None => {
            let ghost e = (key, x);
            v.push((key, x));
            proof {
                lemma_push_first(s, str_key_is::<T>(k@), e);
                assert forall|k2: Seq<char>| k2 != k@ implies #[trigger] str_lookup(v@, k2) == str_lookup(s, k2) by {
                    lemma_same_index(s, v@, str_key_is::<T>(k2));
                }
            }
        },
    }
}

/// Whether `v` holds `x`.
pub fn contains_u32(v: &Vec<u32>, x: u32) -> (r: bool)
    ensures
        r == v@.contains(x),
{
    let mut i: usize = 0;
    while i < v.len()
        invariant
            i <= v@.len(),
            forall|k: int| 0 <= k < i ==> v@[k] != x,
        decreases v@.len() - i,
    {
        if v[i] == x {
            assert(v@[i as int] == x);
            return true;
        }
        i = i + 1;
    }
    false
}

/// Adds `x` unless present.
pub fn set_insert(v: &mut Vec<u32>, x: u32)
    ensures
        final(v)@.contains(x),
        forall|y: u32| y != x ==> (final(v)@.contains(y) <==> old(v)@.contains(y)),
{
    if !contains_u32(v, x) {
        v.push(x);
        assert(v@[v@.len() - 1] == x);
        assert forall|y: u32| y != x implies (v@.contains(y) <==> old(v)@.contains(y)) by {
            if v@.contains(y) {
                let k = choose|k: int| 0 <= k < v@.len() && v@[k] == y;
                assert(old(v)@[k] == y);
            }
            if old(v)@.contains(y) {
                let k = choose|k: int| 0 <= k < old(v)@.len() && old(v)@[k] == y;
                assert(v@[k] == y);
            }
        }
    }
}

/// Removes every occurrence of `x`.
pub fn set_remove(v: &mut Vec<u32>, x: u32)
    ensures
        !final(v)@.contains(x),
        forall|y: u32| y != x ==> (final(v)@.contains(y) <==> old(v)@.contains(y)),
{
    let mut kept: Vec<u32> = Vec::new();
    let mut i: usize = 0;
    while i < v.len()
        invariant
            i <= v@.len(),
            v@ == old(v)@,
            !kept@.contains(x),
            forall|y: u32| y != x ==> (kept@.contains(y) <==> exists|k: int| 0 <= k < i && #[trigger] v@[k] == y),
        decreases v@.len() - i,
    {
        let e = v[i];
        let ghost before = kept@;
        if e != x {
            kept.push(e);
        }
        proof {
            assert forall|y: u32| y != x implies (kept@.contains(y) <==> exists|k: int| 0 <= k < i + 1 && #[trigger] v@[k] == y) by {
                if kept@.contains(y) {
                    let k = choose|k: int| 0 <= k < kept@.len() && kept@[k] == y;
                    if k < before.len() {
                        assert(before[k] == y);
                        assert(before.contains(y));
                    } else {
                        assert(v@[i as int] == y);
                    }
                }
                if exists|k: int| 0 <= k < i + 1 && #[trigger] v@[k] == y {
                    let k = choose|k: int| 0 <= k < i + 1 && #[trigger] v@[k] == y;
                    if k < i {
                        assert(before.contains(y));
                        let m = choose|m: int| 0 <= m < before.len() && before[m] == y;
                        assert(kept@[m] == y);
                    } else {
                        assert(kept@[kept@.len() - 1] == y);
                    }
                }
            }
            if kept@.contains(x) {
                let k = choose|k: int| 0 <= k < kept@.len() && kept@[k] == x;
                if k < before.len() {
                    assert(before[k] == x);
                }
            }
        }
        i = i + 1;
    }
    proof {
        assert forall|y: u32| y != x implies (kept@.contains(y) <==> old(v)@.contains(y)) by {
            if old(v)@.contains(y) {
                let k = choose|k: int| 0 <= k < old(v)@.len() && old(v)@[k] == y;
                assert(v@[k] == y);
            }
        }
    }
    *v = kept;
}

} // verus!
