//! Leaderboards: entries kept in rank order, score uploads, and views by
//! rank or around a user, kept in memory.
use vstd::prelude::*;

use crate::keyed::{first_index, index_from};
use crate::steam_id::SteamId;

verus! {

/// A leaderboard's handle; 0 is invalid.
#[derive(Debug, Clone, Copy, PartialEq, Eq, Hash, Structural)]
pub struct LeaderboardHandle(pub u64);

impl LeaderboardHandle {
    /// The invalid handle.
    pub fn invalid() -> (r: Self)
        ensures
            r.0 == 0,
    {
        LeaderboardHandle(0)
    }

    /// The handle `id`.
    pub fn new(id: u64) -> (r: Self)
        ensures
            r.0 == id,
    {
        LeaderboardHandle(id)
    }

    /// Non-zero.
    pub fn is_valid(&self) -> (r: bool)
        ensures
            r == (self.0 != 0),
    {
        self.0 != 0
    }
}

/// Which scores rank first.
#[derive(Debug, Clone, Copy, PartialEq, Eq, Structural)]
pub enum LeaderboardSortMethod {
    Ascending,
    Descending,
}

/// How scores are shown.
#[derive(Debug, Clone, Copy, PartialEq, Eq, Structural)]
pub enum LeaderboardDisplayType {
    Numeric,
    TimeSeconds,
    TimeMilliSeconds,
}

/// Which entries a request asks for.
#[derive(Debug, Clone, Copy, PartialEq, Eq, Structural)]
pub enum LeaderboardDataRequest {
    Global,
    GlobalAroundUser,
    Friends,
}

/// Whether an upload replaces a better score.
#[derive(Debug, Clone, Copy, PartialEq, Eq, Structural)]
pub enum LeaderboardUploadScoreMethod {
    ForceUpdate,
    KeepBest,
}

/// One user's standing.
#[derive(Debug, Clone)]
pub struct LeaderboardEntry {
    pub steam_id: SteamId,
    pub global_rank: u32,
    pub score: i32,
    pub details: Vec<i32>,
}

/// Whether score `a` ranks strictly before `b`.
pub open spec fn ranks_before(m: LeaderboardSortMethod, a: i32, b: i32) -> bool {
    match m {
        LeaderboardSortMethod::Ascending => a < b,
        LeaderboardSortMethod::Descending => a > b,
    }
}

/// Entries in rank order, each ranked by its position (from 1).
pub open spec fn ranked(m: LeaderboardSortMethod, s: Seq<LeaderboardEntry>) -> bool {
    &&& forall|i: int, j: int| 0 <= i < j < s.len() ==> !ranks_before(m, s[j].score, s[i].score)
    &&& forall|i: int| 0 <= i < s.len() ==> (#[trigger] s[i]).global_rank == i + 1
}

/// Whether score `a` ranks strictly before `b`.
fn beats(m: LeaderboardSortMethod, a: i32, b: i32) -> (r: bool)
    ensures
        r == ranks_before(m, a, b),
{
    match m {
        LeaderboardSortMethod::Ascending => a < b,
        LeaderboardSortMethod::Descending => a > b,
    }
}

/// At most one entry per user.
pub open spec fn one_per_user(s: Seq<LeaderboardEntry>) -> bool {
    forall|i: int, j: int| 0 <= i < j < s.len() ==> s[i].steam_id != s[j].steam_id
}

/// Whether an entry is for `id`.
pub open spec fn entry_of(id: SteamId) -> spec_fn(LeaderboardEntry) -> bool {
    |e: LeaderboardEntry| e.steam_id == id
}

/// A leaderboard.
#[derive(Debug, Clone)]
pub struct Leaderboard {
    pub handle: LeaderboardHandle,
    pub name: String,
    pub sort_method: LeaderboardSortMethod,
    pub display_type: LeaderboardDisplayType,
    pub entries: Vec<LeaderboardEntry>,
}

impl Leaderboard {
    /// The entry of `id`, if it has one.
    pub open spec fn spec_user_entry(&self, id: SteamId) -> Option<LeaderboardEntry> {
        let i = first_index(self.entries@, entry_of(id));
        if i < 0 { None } else { Some(self.entries@[i]) }
    }

    /// An empty leaderboard.
    pub fn new(handle: LeaderboardHandle, name: &str, sort_method: LeaderboardSortMethod, display_type: LeaderboardDisplayType) -> (r: Self)
        ensures
            r.handle == handle && r.name@ == name@ && r.sort_method == sort_method && r.display_type == display_type,
            r.entries@.len() == 0,
            ranked(sort_method, r.entries@),
            one_per_user(r.entries@),
    {
        Leaderboard { handle, name: name.to_owned(), sort_method, display_type, entries: Vec::new() }
    }

    /// Number of entries (cut to 32 bits).
    pub fn entry_count(&self) -> (r: u32)
        ensures
            r == self.entries@.len() as u32,
    {
        self.entries.len() as u32
    }

    fn find(&self, id: SteamId) -> (r: Option<usize>)
        ensures
            match r {
                Some(i) => i as int == first_index(self.entries@, entry_of(id)) && i < self.entries@.len()
                    && self.entries@[i as int].steam_id == id,
                None => first_index(self.entries@, entry_of(id)) == -1,
            },
    {
        let ghost p = entry_of(id);
        let mut i: usize = 0;
        while i < self.entries.len()
            invariant
                i <= self.entries@.len(),
                p == entry_of(id),
                index_from(self.entries@, p, i as int) == first_index(self.entries@, p),
            decreases self.entries@.len() - i,
        {
            if self.entries[i].steam_id == id {
                assert(p(self.entries@[i as int]));
                return Some(i);
            }
            assert(!p(self.entries@[i as int]));
            i = i + 1;
        }
        None
    }

    fn place(&mut self, e: LeaderboardEntry)
        requires
            forall|i: int, j: int| 0 <= i < j < old(self).entries@.len() ==> !ranks_before(old(self).sort_method,
                old(self).entries@[j].score, old(self).entries@[i].score),
            old(self).entries@.len() < u32::MAX,
            one_per_user(old(self).entries@),
            forall|k: int| 0 <= k < old(self).entries@.len() ==> (#[trigger] old(self).entries@[k]).steam_id != e.steam_id,
        ensures
            ranked(final(self).sort_method, final(self).entries@),
            one_per_user(final(self).entries@),
            final(self).entries@.len() == old(self).entries@.len() + 1,
            final(self).sort_method == old(self).sort_method,
            exists|k: int| 0 <= k < final(self).entries@.len() && final(self).entries@[k].steam_id == e.steam_id
                && final(self).entries@[k].score == e.score && final(self).entries@[k].details == e.details,
    {
        let m = self.sort_method;
        let mut pos: usize = 0;
        while pos < self.entries.len() && !beats(m, e.score, self.entries[pos].score)
            invariant
                pos <= self.entries@.len(),
                self.entries == old(self).entries,
                self.sort_method == m,
                forall|k: int| 0 <= k < pos ==> !ranks_before(m, e.score, #[trigger] self.entries@[k].score),
            decreases self.entries@.len() - pos,
        {
            pos = pos + 1;
        }
        let ghost s0 = self.entries@;
        let ghost sc = e.score;
        let ghost who = e.steam_id;
        let ghost det = e.details;
        self.entries.insert(pos, e);
        proof {
            let s = self.entries@;
            assert(s[pos as int].score == sc && s[pos as int].steam_id == who);
            assert forall|i: int, j: int| 0 <= i < j < s.len() implies !ranks_before(m, s[j].score, s[i].score) by {
                if j < pos {
                    assert(s[i] == s0[i] && s[j] == s0[j]);
                } else if j == pos {
                    assert(s[i] == s0[i]);
                } else if i == pos {
                    assert(s[j] == s0[j - 1]);
                    if pos < s0.len() {
                        assert(ranks_before(m, sc, s0[pos as int].score));
                        if j - 1 > pos {
                            assert(!ranks_before(m, s0[j - 1].score, s0[pos as int].score));
                        }
                    }
                } else if i < pos {
                    assert(s[i] == s0[i] && s[j] == s0[j - 1]);
                } else {
                    assert(s[i] == s0[i - 1] && s[j] == s0[j - 1]);
                }
            }
        }
        proof {
            let s = self.entries@;
            assert forall|a: int, b: int| 0 <= a < b < s.len() implies s[a].steam_id != s[b].steam_id by {
                let oa = if a < pos { a } else { a - 1 };
                let ob = if b < pos { b } else { b - 1 };
                if a != pos && b != pos {
                    assert(s[a] == s0[oa] && s[b] == s0[ob]);
                } else if a == pos {
                    assert(s[b] == s0[ob]);
                } else {
                    assert(s[a] == s0[oa]);
                }
            }
        }
        self.renumber();
        assert(self.entries@[pos as int].steam_id == who && self.entries@[pos as int].score == sc
            && self.entries@[pos as int].details == det);
    }

    fn renumber(&mut self)
        requires
            old(self).entries@.len() <= u32::MAX,
        ensures
            final(self).entries@.len() == old(self).entries@.len(),
            final(self).sort_method == old(self).sort_method,
            forall|k: int| 0 <= k < final(self).entries@.len() ==> (#[trigger] final(self).entries@[k]).global_rank == k + 1
                && final(self).entries@[k].score == old(self).entries@[k].score
                && final(self).entries@[k].steam_id == old(self).entries@[k].steam_id
                && final(self).entries@[k].details == old(self).entries@[k].details,
    {
        let n = self.entries.len();
        let mut i: usize = 0;
        while i < n
            invariant
                n == self.entries@.len() == old(self).entries@.len() <= u32::MAX,
                i <= n,
                self.sort_method == old(self).sort_method,
                forall|k: int| 0 <= k < n ==> (#[trigger] self.entries@[k]).score == old(self).entries@[k].score
                    && self.entries@[k].steam_id == old(self).entries@[k].steam_id
                    && self.entries@[k].details == old(self).entries@[k].details,
                forall|k: int| 0 <= k < i ==> (#[trigger] self.entries@[k]).global_rank == k + 1,
            decreases n - i,
        {
            let mut e = self.entries.remove(i);
            e.global_rank = (i + 1) as u32;
            self.entries.insert(i, e);
            i = i + 1;
        }
    }

    /// Uploads `score` for `steam_id`. A new user is always entered; an
    /// existing one is replaced when forced, or when the score is better
    /// under the sort order. Entries stay in rank order, each ranked by
    /// position. Reports whether anything changed.
    pub fn upload_score(&mut self, steam_id: SteamId, score: i32, method: LeaderboardUploadScoreMethod, details: Vec<i32>) -> (r: bool)
        requires
            ranked(old(self).sort_method, old(self).entries@),
            one_per_user(old(self).entries@),
            old(self).entries@.len() < u32::MAX,
        ensures
            ranked(final(self).sort_method, final(self).entries@),
            one_per_user(final(self).entries@),
            final(self).sort_method == old(self).sort_method,
            match old(self).spec_user_entry(steam_id) {
                None => r && final(self).entries@.len() == old(self).entries@.len() + 1,
                Some(prev) => r == (method == LeaderboardUploadScoreMethod::ForceUpdate
                    || ranks_before(old(self).sort_method, score, prev.score))
                    && final(self).entries@.len() == old(self).entries@.len(),
            },
            r ==> exists|k: int| 0 <= k < final(self).entries@.len() && final(self).entries@[k].steam_id == steam_id
                && final(self).entries@[k].score == score && final(self).entries@[k].details@ == details@,
            !r ==> final(self).entries@ == old(self).entries@,
    {
        let ghost det = details;
        let e = LeaderboardEntry { steam_id, global_rank: 0, score, details };
        match self.find(steam_id) {
            Some(i) => {
                let better = beats(self.sort_method, score, self.entries[i].score);
                let update = match method {
                    LeaderboardUploadScoreMethod::ForceUpdate => true,
                    LeaderboardUploadScoreMethod::KeepBest => better,
                };
                if !update {
                    return false;
                }
                let ghost s0 = self.entries@;
                let _ = self.entries.remove(i);
                proof {
                    let m = self.sort_method;
                    let s = self.entries@;
                    assert forall|a: int, b: int| 0 <= a < b < s.len() implies !ranks_before(m, s[b].score, s[a].score) by {
                        let oa = if a < i { a } else { a + 1 };
                        let ob = if b < i { b } else { b + 1 };
                        assert(s[a] == s0[oa] && s[b] == s0[ob]);
                    }
                    assert forall|a: int, b: int| 0 <= a < b < s.len() implies s[a].steam_id != s[b].steam_id by {
                        let oa = if a < i { a } else { a + 1 };
                        let ob = if b < i { b } else { b + 1 };
                        assert(s[a] == s0[oa] && s[b] == s0[ob]);
                    }
                    assert forall|k: int| 0 <= k < s.len() implies (#[trigger] s[k]).steam_id != steam_id by {
                        let ok = if k < i { k } else { k + 1 };
                        assert(s[k] == s0[ok]);
                        assert(s0[i as int].steam_id == steam_id);
                    }
                }
                self.place(e);
                true
            },
            None => {
                proof {
                    crate::keyed::lemma_found(self.entries@, entry_of(steam_id), 0);
                    assert forall|k: int| 0 <= k < self.entries@.len() implies (#[trigger] self.entries@[k]).steam_id != steam_id by {
                        assert(!entry_of(steam_id)(self.entries@[k]));
                    }
                }
                self.place(e);
                true
            },
        }
    }

    /// Up to `count` entries from rank `start` (ranks count from 1; 0 reads as 1).
    pub fn get_entries(&self, start: u32, count: u32) -> (r: Vec<&LeaderboardEntry>)
        ensures
            ({
                let from = if start > 0 { start - 1 } else { 0 };
                let to = if from + count < self.entries@.len() { from + count } else { self.entries@.len() as int };
                &&& r@.len() == if from < to { to - from } else { 0 }
                &&& forall|k: int| 0 <= k < r@.len() ==> *(#[trigger] r@[k]) == self.entries@[from + k]
            }),
    {
        let from: usize = if start > 0 { (start - 1) as usize } else { 0 };
        let mut out: Vec<&LeaderboardEntry> = Vec::new();
        if from >= self.entries.len() {
            return out;
        }
        let avail = self.entries.len() - from;
        let mut k: usize = 0;
        while k < count as usize && k < avail
            invariant
                out@.len() == k,
                k <= count,
                k <= avail == self.entries@.len() - from,
                from < self.entries@.len() <= usize::MAX,
                from as int == if start > 0 { start - 1 } else { 0 },
                forall|j: int| 0 <= j < k ==> *(#[trigger] out@[j]) == self.entries@[from + j],
            decreases count - k,
        {
            out.push(&self.entries[from + k]);
            k = k + 1;
        }
        out
    }

    /// The entries from `range_before` places above the user to
    /// `range_after` places below, in rank order; empty for an unknown user.
    pub fn get_entries_around_user(&self, steam_id: SteamId, range_before: u32, range_after: u32) -> (r: Vec<&LeaderboardEntry>)
        ensures
            ({
                let i = first_index(self.entries@, entry_of(steam_id));
                &&& i < 0 ==> r@.len() == 0
                &&& i >= 0 ==> ({
                    let from = if i >= range_before { i - range_before } else { 0 };
                    let to = if i + range_after + 1 < self.entries@.len() { i + range_after + 1 } else { self.entries@.len() as int };
                    &&& r@.len() == to - from
                    &&& forall|k: int| 0 <= k < r@.len() ==> *(#[trigger] r@[k]) == self.entries@[from + k]
                })
            }),
    {
        let idx = match self.find(steam_id) {
            Some(i) => i,
            None => return Vec::new(),
        };
        let from: usize = if idx >= range_before as usize { idx - range_before as usize } else { 0 };
        let to: usize = if (idx as u128) + (range_after as u128) + 1 < self.entries.len() as u128 {
            idx + range_after as usize + 1
        } else {
            self.entries.len()
        };
        let mut out: Vec<&LeaderboardEntry> = Vec::new();
        let mut k: usize = from;
        while k < to
            invariant
                from <= k <= to <= self.entries@.len(),
                out@.len() == k - from,
                forall|j: int| 0 <= j < out@.len() ==> *(#[trigger] out@[j]) == self.entries@[from + j],
            decreases to - k,
        {
            out.push(&self.entries[k]);
            k = k + 1;
        }
        out
    }

    /// The entry of `steam_id`.
    pub fn get_user_entry(&self, steam_id: SteamId) -> (r: Option<&LeaderboardEntry>)
        ensures
            match self.spec_user_entry(steam_id) {
                Some(e) => r == Some(&e),
                None => r is None,
            },
    {
        match self.find(steam_id) {
            Some(i) => Some(&self.entries[i]),
            None => None,
        }
    }
}

} // verus!
