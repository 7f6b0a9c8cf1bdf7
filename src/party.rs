//! Parties: a leader, members with ready flags, timed invites, and a
//! registry of parties per player, kept in memory.
use std::time::{Duration, Instant};
use vstd::prelude::*;

use crate::keyed::{find_str, first_index, index_from, set_str, str_lookup};
use crate::clock::{instant_checked_add, is_past, secs};
use crate::steam_id::SteamId;

verus! {

/// A party's id; 0 is invalid.
#[derive(Debug, Clone, Copy, PartialEq, Eq, Hash, Structural)]
pub struct PartyId(pub u64);

impl PartyId {
    /// The invalid id.
    pub fn invalid() -> (r: Self)
        ensures
            r.0 == 0,
    {
        PartyId(0)
    }

    /// The id `id`.
    pub fn new(id: u64) -> (r: Self)
        ensures
            r.0 == id,
    {
        PartyId(id)
    }

    /// Non-zero.
    pub fn is_valid(&self) -> (r: bool)
        ensures
            r == (self.0 != 0),
    {
        self.0 != 0
    }
}

/// A member of a party.
#[derive(Debug, Clone)]
pub struct PartyMember {
    pub steam_id: SteamId,
    pub name: String,
    pub ready: bool,
    pub joined_at: Instant,
    pub is_leader: bool,
}

impl PartyMember {
    /// A member who joined now, not ready.
    pub fn new(steam_id: SteamId, name: &str, is_leader: bool) -> (r: Self)
        ensures
            r.steam_id == steam_id && r.name@ == name@ && !r.ready && r.is_leader == is_leader,
    {
        PartyMember { steam_id, name: name.to_owned(), ready: false, joined_at: Instant::now(), is_leader }
    }
}

/// An invitation to a party.
#[derive(Debug, Clone)]
pub struct PartyInvite {
    pub party_id: PartyId,
    pub from: SteamId,
    pub to: SteamId,
    pub sent_at: Instant,
    /// When it expires; `None` when that lies beyond what an instant can
    /// hold, and it never expires.
    pub expires_at: Option<Instant>,
}

impl PartyInvite {
    /// An invitation sent now, expiring after `duration`.
    pub fn new(party_id: PartyId, from: SteamId, to: SteamId, duration: Duration) -> (r: Self)
        ensures
            r.party_id == party_id && r.from == from && r.to == to,
    {
        let now = Instant::now();
        PartyInvite { party_id, from, to, sent_at: now, expires_at: instant_checked_add(now, duration) }
    }

    /// Whether the invitation has expired (by the clock); one without an
    /// expiry instant never does.
    pub fn is_expired(&self) -> (r: bool)
        ensures
            self.expires_at is None ==> !r,
    {
        match &self.expires_at {
            Some(t) => is_past(t),
            None => false,
        }
    }
}

/// A party's phase.
#[derive(Debug, Clone, Copy, PartialEq, Eq, Structural)]
pub enum PartyState {
    Idle,
    Ready,
    Queuing,
    Loading,
    InGame,
}

/// Smallest party size limit.
pub const MIN_PARTY_SIZE: u32 = 1;

/// Largest party size limit.
pub const MAX_PARTY_SIZE: u32 = 10;

/// Seconds an invitation stays valid.
pub const DEFAULT_INVITE_SECS: u64 = 60;

/// Why a party operation was refused.
#[derive(Debug, Clone, Copy, PartialEq, Eq, Structural)]
pub enum PartyError {
    PartyFull,
    AlreadyMember,
    NotMember,
    NotLeader,
    NoInvite,
    InvitePending,
    InviteExpired,
    CannotKickSelf,
    PartyNotFound,
}

/// Whether one of `ms` is `id`.
pub open spec fn in_party(ms: Seq<PartyMember>, id: SteamId) -> bool {
    exists|k: int| 0 <= k < ms.len() && (#[trigger] ms[k]).steam_id == id
}

/// Whether the member is `id`.
pub open spec fn party_member_is(id: SteamId) -> spec_fn(PartyMember) -> bool {
    |m: PartyMember| m.steam_id == id
}

/// Whether an invitation is addressed to `id`.
pub open spec fn invite_to(id: SteamId) -> spec_fn(PartyInvite) -> bool {
    |i: PartyInvite| i.to == id
}

/// Every member is ready.
pub open spec fn all_ready_spec(ms: Seq<PartyMember>) -> bool {
    forall|k: int| 0 <= k < ms.len() ==> (#[trigger] ms[k]).ready
}

/// The members other than `id`, in order.
pub open spec fn without_party_member(ms: Seq<PartyMember>, id: SteamId) -> Seq<PartyMember>
    decreases ms.len(),
{
    if ms.len() == 0 {
        ms
    } else if ms.last().steam_id == id {
        without_party_member(ms.drop_last(), id)
    } else {
        without_party_member(ms.drop_last(), id).push(ms.last())
    }
}

proof fn lemma_without_party_member(ms: Seq<PartyMember>, id: SteamId)
    ensures
        !in_party(without_party_member(ms, id), id),
        forall|x: SteamId| x != id ==> (in_party(without_party_member(ms, id), x) <==> in_party(ms, x)),
    decreases ms.len(),
{
    if ms.len() > 0 {
        let t = ms.drop_last();
        lemma_without_party_member(t, id);
        let w = without_party_member(t, id);
        let r = without_party_member(ms, id);
        if in_party(r, id) {
            let k = choose|k: int| 0 <= k < r.len() && (#[trigger] r[k]).steam_id == id;
            if ms.last().steam_id != id && k == w.len() {
            } else {
                assert(w[k] == r[k]);
            }
        }
        assert forall|x: SteamId| x != id implies (in_party(r, x) <==> in_party(ms, x)) by {
            if in_party(r, x) {
                let k = choose|k: int| 0 <= k < r.len() && (#[trigger] r[k]).steam_id == x;
                if ms.last().steam_id != id && k == w.len() {
                    assert(ms[ms.len() - 1].steam_id == x);
                } else {
                    assert(w[k] == r[k]);
                    assert(in_party(w, x));
                    assert(in_party(t, x));
                    let j = choose|j: int| 0 <= j < t.len() && (#[trigger] t[j]).steam_id == x;
                    assert(ms[j] == t[j]);
                }
            }
            if in_party(ms, x) {
                let k = choose|k: int| 0 <= k < ms.len() && (#[trigger] ms[k]).steam_id == x;
                if k == ms.len() - 1 {
                    assert(r[r.len() - 1] == ms.last());
                } else {
                    assert(t[k] == ms[k]);
                    assert(in_party(t, x));
                    let j = choose|j: int| 0 <= j < w.len() && (#[trigger] w[j]).steam_id == x;
                    assert(r[j] == w[j]);
                }
            }
        }
    }
}

/// A party.
#[derive(Debug, Clone)]
pub struct Party {
    pub id: PartyId,
    pub leader: SteamId,
    pub members: Vec<PartyMember>,
    pub max_size: u32,
    pub state: PartyState,
    pub created_at: Instant,
    pub invites: Vec<PartyInvite>,
    pub metadata: Vec<(String, String)>,
}

impl Party {
    /// The members, in joining order.
    pub closed spec fn spec_members(&self) -> Seq<PartyMember> {
        self.members@
    }

    /// The invitations, in sending order.
    pub closed spec fn spec_invites(&self) -> Seq<PartyInvite> {
        self.invites@
    }

    /// A party led by `leader`, its only member; the size limit is kept
    /// within 1..=10.
    pub fn new(id: PartyId, leader: SteamId, leader_name: &str, max_size: u32) -> (r: Self)
        ensures
            r.id == id && r.leader == leader,
            r.spec_members().len() == 1 && r.spec_members()[0].steam_id == leader && r.spec_members()[0].is_leader,
            r.max_size == if max_size < MIN_PARTY_SIZE {
                MIN_PARTY_SIZE
            } else if max_size > MAX_PARTY_SIZE {
                MAX_PARTY_SIZE
            } else {
                max_size
            },
            r.state == PartyState::Idle,
            r.spec_invites().len() == 0,
    {
        let size = if max_size < MIN_PARTY_SIZE {
            MIN_PARTY_SIZE
        } else if max_size > MAX_PARTY_SIZE {
            MAX_PARTY_SIZE
        } else {
            max_size
        };
        let mut members: Vec<PartyMember> = Vec::new();
        members.push(PartyMember::new(leader, leader_name, true));
        Party {
            id,
            leader,
            members,
            max_size: size,
            state: PartyState::Idle,
            created_at: Instant::now(),
            invites: Vec::new(),
            metadata: Vec::new(),
        }
    }

    /// Number of members (cut to 32 bits).
    pub fn member_count(&self) -> (r: u32)
        ensures
            r == self.spec_members().len() as u32,
    {
        self.members.len() as u32
    }

    /// No free place.
    pub fn is_full(&self) -> (r: bool)
        ensures
            r == (self.spec_members().len() as u32 >= self.max_size),
    {
        self.member_count() >= self.max_size
    }

    /// Whether `steam_id` is a member.
    pub fn is_member(&self, steam_id: SteamId) -> (r: bool)
        ensures
            r == in_party(self.spec_members(), steam_id),
    {
        let mut i: usize = 0;
        while i < self.members.len()
            invariant
                i <= self.members@.len(),
                forall|k: int| 0 <= k < i ==> self.members@[k].steam_id != steam_id,
            decreases self.members@.len() - i,
        {
            if self.members[i].steam_id == steam_id {
                assert(self.members@[i as int].steam_id == steam_id);
                return true;
            }
            i = i + 1;
        }
        false
    }

    /// Whether `steam_id` leads the party.
    pub fn is_leader(&self, steam_id: SteamId) -> (r: bool)
        ensures
            r == (self.leader == steam_id),
    {
        self.leader == steam_id
    }

    fn find_member(&self, steam_id: SteamId) -> (r: Option<usize>)
        ensures
            match r {
                Some(i) => i as int == first_index(self.members@, party_member_is(steam_id)) && i < self.members@.len()
                    && self.members@[i as int].steam_id == steam_id,
                None => first_index(self.members@, party_member_is(steam_id)) == -1
                    && !in_party(self.members@, steam_id),
            },
    {
        let ghost p = party_member_is(steam_id);
        let mut i: usize = 0;
        while i < self.members.len()
            invariant
                i <= self.members@.len(),
                p == party_member_is(steam_id),
                index_from(self.members@, p, i as int) == first_index(self.members@, p),
                forall|k: int| 0 <= k < i ==> self.members@[k].steam_id != steam_id,
            decreases self.members@.len() - i,
        {
            if self.members[i].steam_id == steam_id {
                assert(p(self.members@[i as int]));
                return Some(i);
            }
            assert(!p(self.members@[i as int]));
            i = i + 1;
        }
        None
    }

    /// The member record of `steam_id`.
    pub fn get_member(&self, steam_id: SteamId) -> (r: Option<&PartyMember>)
        ensures
            ({
                let i = first_index(self.spec_members(), party_member_is(steam_id));
                &&& i < 0 ==> r is None
                &&& i >= 0 ==> r == Some(&self.spec_members()[i])
            }),
    {
        match self.find_member(steam_id) {
            Some(i) => Some(&self.members[i]),
            None => None,
        }
    }

    /// The members.
    pub fn members(&self) -> (r: &[PartyMember])
        ensures
            r@ == self.spec_members(),
    {
        self.members.as_slice()
    }

    fn live_invite_to(&self, to: SteamId) -> (r: bool)
        ensures
            r ==> exists|k: int| 0 <= k < self.spec_invites().len() && (#[trigger] self.spec_invites()[k]).to == to,
    {
        let mut i: usize = 0;
        while i < self.invites.len()
            invariant
                i <= self.invites@.len(),
            decreases self.invites@.len() - i,
        {
            if self.invites[i].to == to && !self.invites[i].is_expired() {
                assert(self.spec_invites()[i as int].to == to);
                return true;
            }
            i = i + 1;
        }
        false
    }

    /// Invites `to`: refused when the party is full, `to` is a member, or
    /// an unexpired invitation to them is pending.
    pub fn invite(&mut self, to: SteamId) -> (r: Result<(), PartyError>)
        ensures
            old(self).spec_members().len() as u32 >= old(self).max_size ==> r == Err::<(), PartyError>(PartyError::PartyFull),
            (old(self).spec_members().len() as u32) < old(self).max_size && in_party(old(self).spec_members(), to)
                ==> r == Err::<(), PartyError>(PartyError::AlreadyMember),
            r == Err::<(), PartyError>(PartyError::InvitePending) ==> exists|k: int|
                0 <= k < old(self).spec_invites().len() && (#[trigger] old(self).spec_invites()[k]).to == to,
            r is Ok ==> final(self).spec_invites().len() == old(self).spec_invites().len() + 1
                && final(self).spec_invites().last().to == to && final(self).spec_invites().last().from == old(self).leader
                && final(self).spec_invites().last().party_id == old(self).id,
            r is Err ==> final(self).spec_invites() == old(self).spec_invites(),
            final(self).spec_members() == old(self).spec_members(),
            final(self).leader == old(self).leader,
    {
        if self.is_full() {
            return Err(PartyError::PartyFull);
        }
        if self.is_member(to) {
            return Err(PartyError::AlreadyMember);
        }
        if self.live_invite_to(to) {
            return Err(PartyError::InvitePending);
        }
        let invite = PartyInvite::new(self.id, self.leader, to, secs(DEFAULT_INVITE_SECS));
        self.invites.push(invite);
        Ok(())
    }

    fn drop_expired(&mut self)
        ensures
            forall|k: int| 0 <= k < final(self).invites@.len() ==> old(self).invites@.contains(#[trigger] final(self).invites@[k]),
            final(self).members == old(self).members,
            final(self).leader == old(self).leader,
            final(self).max_size == old(self).max_size,
            final(self).id == old(self).id,
            final(self).state == old(self).state,
    {
        let mut rest: Vec<PartyInvite> = Vec::new();
        std::mem::swap(&mut rest, &mut self.invites);
        let ghost o = rest@;
        let ghost mut i: int = 0;
        while rest.len() > 0
            invariant
                0 <= i <= o.len(),
                rest@ == o.subrange(i, o.len() as int),
                o == old(self).invites@,
                self.members == old(self).members,
                self.leader == old(self).leader,
                self.max_size == old(self).max_size,
                self.id == old(self).id,
                self.state == old(self).state,
                forall|k: int| 0 <= k < self.invites@.len() ==> o.contains(#[trigger] self.invites@[k]),
            decreases rest@.len(),
        {
            let inv = rest.remove(0);
            proof { assert(o[i] == inv); }
            if !inv.is_expired() {
                self.invites.push(inv);
            }
            proof {
                i = i + 1;
                assert(rest@ =~= o.subrange(i, o.len() as int));
            }
        }
    }

    fn find_invite(&self, to: SteamId) -> (r: Option<usize>)
        ensures
            match r {
                Some(i) => i < self.spec_invites().len() && self.spec_invites()[i as int].to == to,
                None => forall|k: int| 0 <= k < self.spec_invites().len() ==> (#[trigger] self.spec_invites()[k]).to != to,
            },
    {
        let mut i: usize = 0;
        while i < self.invites.len()
            invariant
                i <= self.invites@.len(),
                forall|k: int| 0 <= k < i ==> (#[trigger] self.spec_invites()[k]).to != to,
            decreases self.invites@.len() - i,
        {
            if self.invites[i].to == to {
                return Some(i);
            }
            i = i + 1;
        }
        None
    }

    /// Accepts the invitation to `member` (expired ones are dropped first):
    /// refused without an invitation, when full, or for a member.
    pub fn accept_invite(&mut self, member: SteamId, name: &str) -> (r: Result<(), PartyError>)
        ensures
            r is Ok ==> !in_party(old(self).spec_members(), member)
                && (old(self).spec_members().len() as u32) < old(self).max_size
                && final(self).spec_members().len() == old(self).spec_members().len() + 1
                && final(self).spec_members().last().steam_id == member && !final(self).spec_members().last().is_leader
                && final(self).spec_members().subrange(0, old(self).spec_members().len() as int) == old(self).spec_members(),
            r is Err ==> final(self).spec_members() == old(self).spec_members(),
            r == Err::<(), PartyError>(PartyError::PartyFull) ==> old(self).spec_members().len() as u32 >= old(self).max_size,
            r == Err::<(), PartyError>(PartyError::AlreadyMember) ==> in_party(old(self).spec_members(), member),
            r == Err::<(), PartyError>(PartyError::NoInvite) ==> forall|k: int|
                0 <= k < final(self).spec_invites().len() ==> (#[trigger] final(self).spec_invites()[k]).to != member,
            final(self).leader == old(self).leader,
    {
        self.drop_expired();
        let idx = match self.find_invite(member) {
            Some(i) => i,
            None => return Err(PartyError::NoInvite),
        };
        if self.is_full() {
            return Err(PartyError::PartyFull);
        }
        if self.is_member(member) {
            return Err(PartyError::AlreadyMember);
        }
        let _ = self.invites.remove(idx);
        self.members.push(PartyMember::new(member, name, false));
        assert(self.members@.subrange(0, old(self).members@.len() as int) =~= old(self).members@);
        Ok(())
    }

    /// Declines the first invitation to `member`.
    pub fn decline_invite(&mut self, member: SteamId) -> (r: Result<(), PartyError>)
        ensures
            (forall|k: int| 0 <= k < old(self).spec_invites().len() ==> (#[trigger] old(self).spec_invites()[k]).to != member)
                ==> r == Err::<(), PartyError>(PartyError::NoInvite) && final(self).spec_invites() == old(self).spec_invites(),
            r is Ok ==> final(self).spec_invites().len() + 1 == old(self).spec_invites().len(),
            final(self).spec_members() == old(self).spec_members(),
    {
        match self.find_invite(member) {
            Some(i) => {
                let _ = self.invites.remove(i);
                Ok(())
            },
            None => Err(PartyError::NoInvite),
        }
    }

    fn remove_member_record(&mut self, member: SteamId)
        ensures
            final(self).members@ == without_party_member(old(self).members@, member),
            final(self).leader == old(self).leader,
            final(self).invites == old(self).invites,
            final(self).max_size == old(self).max_size,
            final(self).id == old(self).id,
            final(self).state == old(self).state,
    {
        let mut rest: Vec<PartyMember> = Vec::new();
        std::mem::swap(&mut rest, &mut self.members);
        let ghost o = rest@;
        let ghost mut i: int = 0;
        while rest.len() > 0
            invariant
                0 <= i <= o.len(),
                rest@ == o.subrange(i, o.len() as int),
                o == old(self).members@,
                self.members@ == without_party_member(o.take(i), member),
                self.leader == old(self).leader,
                self.invites == old(self).invites,
                self.max_size == old(self).max_size,
                self.id == old(self).id,
                self.state == old(self).state,
            decreases rest@.len(),
        {
            let m = rest.remove(0);
            proof { assert(o[i] == m); }
            if m.steam_id != member {
                self.members.push(m);
            }
            proof {
                assert(o.take(i + 1).drop_last() =~= o.take(i));
                i = i + 1;
                assert(rest@ =~= o.subrange(i, o.len() as int));
            }
        }
        proof { assert(o.take(o.len() as int) =~= o); }
    }

    /// `member` leaves; when the leader leaves, the first remaining member
    /// leads.
    pub fn leave(&mut self, member: SteamId) -> (r: Result<(), PartyError>)
        ensures
            !in_party(old(self).spec_members(), member) ==> r == Err::<(), PartyError>(PartyError::NotMember)
                && final(self).spec_members() == old(self).spec_members() && final(self).leader == old(self).leader,
            in_party(old(self).spec_members(), member) ==> r is Ok
                && !in_party(final(self).spec_members(), member)
                && final(self).spec_members().len() == without_party_member(old(self).spec_members(), member).len()
                && (forall|x: SteamId| x != member ==> (in_party(final(self).spec_members(), x) <==> in_party(old(self).spec_members(), x)))
                && final(self).leader == if old(self).leader == member && final(self).spec_members().len() > 0 {
                    final(self).spec_members()[0].steam_id
                } else {
                    old(self).leader
                },
            final(self).spec_invites() == old(self).spec_invites(),
    {
        if !self.is_member(member) {
            return Err(PartyError::NotMember);
        }
        self.remove_member_record(member);
        proof { lemma_without_party_member(old(self).members@, member); }
        if self.leader == member && self.members.len() > 0 {
            let mut first = self.members.remove(0);
            first.is_leader = true;
            self.leader = first.steam_id;
            self.members.insert(0, first);
            proof {
                let w = without_party_member(old(self).members@, member);
                assert forall|x: SteamId| in_party(self.members@, x) <==> in_party(w, x) by {
                    if in_party(self.members@, x) {
                        let k = choose|k: int| 0 <= k < self.members@.len() && (#[trigger] self.members@[k]).steam_id == x;
                        assert(w[k].steam_id == self.members@[k].steam_id);
                    }
                    if in_party(w, x) {
                        let k = choose|k: int| 0 <= k < w.len() && (#[trigger] w[k]).steam_id == x;
                        assert(w[k].steam_id == self.members@[k].steam_id);
                    }
                }
            }
        }
        Ok(())
    }

    /// The leader removes `target`.
    pub fn kick(&mut self, kicker: SteamId, target: SteamId) -> (r: Result<(), PartyError>)
        ensures
            r == if old(self).leader != kicker {
                Err::<(), PartyError>(PartyError::NotLeader)
            } else if kicker == target {
                Err(PartyError::CannotKickSelf)
            } else if !in_party(old(self).spec_members(), target) {
                Err(PartyError::NotMember)
            } else {
                Ok(())
            },
            r is Ok ==> final(self).spec_members() == without_party_member(old(self).spec_members(), target),
            r is Err ==> final(self).spec_members() == old(self).spec_members(),
            final(self).leader == old(self).leader,
    {
        if !self.is_leader(kicker) {
            return Err(PartyError::NotLeader);
        }
        if kicker == target {
            return Err(PartyError::CannotKickSelf);
        }
        if !self.is_member(target) {
            return Err(PartyError::NotMember);
        }
        self.remove_member_record(target);
        Ok(())
    }

    /// The leader hands the lead to a member; only that member's flag is set.
    pub fn transfer_leadership(&mut self, current_leader: SteamId, new_leader: SteamId) -> (r: Result<(), PartyError>)
        ensures
            r == if old(self).leader != current_leader {
                Err::<(), PartyError>(PartyError::NotLeader)
            } else if !in_party(old(self).spec_members(), new_leader) {
                Err(PartyError::NotMember)
            } else {
                Ok(())
            },
            r is Ok ==> final(self).leader == new_leader && final(self).spec_members().len() == old(self).spec_members().len()
                && forall|k: int| 0 <= k < final(self).spec_members().len() ==> (#[trigger] final(self).spec_members()[k]).is_leader
                    == (final(self).spec_members()[k].steam_id == new_leader)
                    && final(self).spec_members()[k].steam_id == old(self).spec_members()[k].steam_id,
            r is Err ==> final(self).leader == old(self).leader && final(self).spec_members() == old(self).spec_members(),
    {
        if !self.is_leader(current_leader) {
            return Err(PartyError::NotLeader);
        }
        if !self.is_member(new_leader) {
            return Err(PartyError::NotMember);
        }
        let mut i: usize = 0;
        while i < self.members.len()
            invariant
                i <= self.members@.len(),
                self.members@.len() == old(self).members@.len(),
                self.leader == old(self).leader,
                forall|k: int| 0 <= k < self.members@.len() ==> (#[trigger] self.members@[k]).steam_id == old(self).members@[k].steam_id,
                forall|k: int| 0 <= k < i ==> (#[trigger] self.members@[k]).is_leader == (self.members@[k].steam_id == new_leader),
            decreases self.members@.len() - i,
        {
            let mut m = self.members.remove(i);
            m.is_leader = m.steam_id == new_leader;
            self.members.insert(i, m);
            i = i + 1;
        }
        self.leader = new_leader;
        Ok(())
    }

    /// Sets the ready flag of `member`; an idle party whose members are all
    /// ready becomes ready, a ready one where someone is not goes idle.
    pub fn set_ready(&mut self, member: SteamId, ready: bool) -> (r: Result<(), PartyError>)
        ensures
            !in_party(old(self).spec_members(), member) ==> r == Err::<(), PartyError>(PartyError::NotMember)
                && final(self).spec_members() == old(self).spec_members() && final(self).state == old(self).state,
            in_party(old(self).spec_members(), member) ==> r is Ok && ({
                let i = first_index(old(self).spec_members(), party_member_is(member));
                &&& final(self).spec_members() == old(self).spec_members().update(i, PartyMember { ready, ..old(self).spec_members()[i] })
                &&& final(self).state == if old(self).state == PartyState::Idle && all_ready_spec(final(self).spec_members()) {
                    PartyState::Ready
                } else if old(self).state == PartyState::Ready && !all_ready_spec(final(self).spec_members()) {
                    PartyState::Idle
                } else {
                    old(self).state
                }
            }),
            final(self).leader == old(self).leader,
    {
        match self.find_member(member) {
            Some(i) => {
                let mut m = self.members.remove(i);
                m.ready = ready;
                self.members.insert(i, m);
                assert(self.members@ =~= old(self).members@.update(i as int, m));
                self.update_state();
                Ok(())
            },
            None => Err(PartyError::NotMember),
        }
    }

    /// Every member is ready.
    pub fn all_ready(&self) -> (r: bool)
        ensures
            r == all_ready_spec(self.spec_members()),
    {
        let mut i: usize = 0;
        while i < self.members.len()
            invariant
                i <= self.members@.len(),
                forall|k: int| 0 <= k < i ==> (#[trigger] self.members@[k]).ready,
            decreases self.members@.len() - i,
        {
            if !self.members[i].ready {
                return false;
            }
            i = i + 1;
        }
        true
    }

    fn update_state(&mut self)
        ensures
            final(self).state == if old(self).state == PartyState::Idle && all_ready_spec(old(self).members@) {
                PartyState::Ready
            } else if old(self).state == PartyState::Ready && !all_ready_spec(old(self).members@) {
                PartyState::Idle
            } else {
                old(self).state
            },
            final(self).members == old(self).members,
            final(self).leader == old(self).leader,
    {
        if self.state == PartyState::Idle && self.all_ready() {
            self.state = PartyState::Ready;
        } else if self.state == PartyState::Ready && !self.all_ready() {
            self.state = PartyState::Idle;
        }
    }

    /// No members left.
    pub fn is_empty(&self) -> (r: bool)
        ensures
            r == (self.spec_members().len() == 0),
    {
        self.members.len() == 0
    }

    /// Number of unexpired invitations (by the clock).
    pub fn pending_invite_count(&self) -> (r: usize)
        ensures
            r <= self.spec_invites().len(),
    {
        let mut n: usize = 0;
        let mut i: usize = 0;
        while i < self.invites.len()
            invariant
                i <= self.invites@.len(),
                n <= i,
            decreases self.invites@.len() - i,
        {
            if !self.invites[i].is_expired() {
                n = n + 1;
            }
            i = i + 1;
        }
        n
    }

    /// Sets metadata `key`.
    pub fn set_metadata(&mut self, key: &str, value: &str)
        ensures
            str_lookup(final(self).metadata@, key@) matches Some(v) && v@ == value@,
            forall|k: Seq<char>| k != key@ ==> #[trigger] str_lookup(final(self).metadata@, k) == str_lookup(old(self).metadata@, k),
            final(self).spec_members() == old(self).spec_members(),
    {
        set_str(&mut self.metadata, key, value.to_owned());
    }

    /// Metadata `key`.
    pub fn get_metadata(&self, key: &str) -> (r: Option<&str>)
        ensures
            match str_lookup(self.metadata@, key@) {
                Some(v) => r matches Some(s) && s@ == v@,
                None => r is None,
            },
    {
        match find_str(&self.metadata, key) {
            Some(i) => Some(self.metadata[i].1.as_str()),
            None => None,
        }
    }
}

/// Whether a party has id `id`.
pub open spec fn party_is(id: PartyId) -> spec_fn(Party) -> bool {
    |p: Party| p.id == id
}

/// Whether an entry is about player `id`.
pub open spec fn player_is<T>(id: SteamId) -> spec_fn((SteamId, T)) -> bool {
    |e: (SteamId, T)| e.0 == id
}

/// The value recorded for player `id`.
pub open spec fn player_lookup<T>(s: Seq<(SteamId, T)>, id: SteamId) -> Option<T> {
    let i = first_index(s, player_is::<T>(id));
    if i < 0 { None } else { Some(s[i].1) }
}

fn find_player<T>(v: &Vec<(SteamId, T)>, id: SteamId) -> (r: Option<usize>)
    ensures
        match r {
            Some(i) => i as int == first_index(v@, player_is::<T>(id)) && i < v@.len() && v@[i as int].0 == id,
            None => first_index(v@, player_is::<T>(id)) == -1,
        },
{
    let ghost p = player_is::<T>(id);
    let mut i: usize = 0;
    while i < v.len()
        invariant
            i <= v@.len(),
            p == player_is::<T>(id),
            index_from(v@, p, i as int) == first_index(v@, p),
        decreases v@.len() - i,
    {
        if v[i].0 == id {
            assert(p(v@[i as int]));
            return Some(i);
        }
        assert(!p(v@[i as int]));
        i = i + 1;
    }
    None
}

fn set_player<T>(v: &mut Vec<(SteamId, T)>, id: SteamId, x: T)
    ensures
        player_lookup(final(v)@, id) == Some(x),
        forall|o: SteamId| o != id ==> #[trigger] player_lookup(final(v)@, o) == player_lookup(old(v)@, o),
{
    let ghost s = v@;
    match find_player(v, id) {
        Some(i) => {
            v.set(i, (id, x));
            proof {
                crate::keyed::lemma_update_first(s, player_is::<T>(id), i as int, (id, x));
                assert forall|o: SteamId| o != id implies #[trigger] player_lookup(v@, o) == player_lookup(s, o) by {
                    crate::keyed::lemma_same_index(s, v@, player_is::<T>(o));
                }
            }
        },
        None => {
            v.push((id, x));
            proof {
                crate::keyed::lemma_push_first(s, player_is::<T>(id), (id, x));
                assert forall|o: SteamId| o != id implies #[trigger] player_lookup(v@, o) == player_lookup(s, o) by {
                    crate::keyed::lemma_same_index(s, v@, player_is::<T>(o));
                }
            }
        },
    }
}

fn remove_player<T>(v: &mut Vec<(SteamId, T)>, id: SteamId)
    ensures
        forall|o: SteamId| o != id ==> #[trigger] player_lookup(final(v)@, o) == player_lookup(old(v)@, o),
        final(v)@.len() <= old(v)@.len(),
{
    let ghost s = v@;
    if let Some(i) = find_player(v, id) {
        let _ = v.remove(i);
        proof {
            assert forall|o: SteamId| o != id implies #[trigger] player_lookup(v@, o) == player_lookup(s, o) by {
                crate::keyed::lemma_found(s, player_is::<T>(o), 0);
                crate::keyed::lemma_found(v@, player_is::<T>(o), 0);
                let a = first_index(s, player_is::<T>(o));
                let b = first_index(v@, player_is::<T>(o));
                if a >= 0 {
                    let ia = if a < i { a } else { a - 1 };
                    assert(a != i);
                    assert(v@[ia] == s[a]);
                    if b >= 0 && b < ia {
                        let sb = if b < i { b } else { b + 1 };
                        assert(s[sb] == v@[b]);
                    }
                    if b < 0 || b > ia {
                        assert(player_is::<T>(o)(v@[ia]));
                    }
                } else if b >= 0 {
                    let sb = if b < i { b } else { b + 1 };
                    assert(s[sb] == v@[b]);
                }
            }
        }
    }
}

/// Every party, who is in which, and the invitations per player.
pub struct PartyManager {
    parties: Vec<Party>,
    player_parties: Vec<(SteamId, PartyId)>,
    player_invites: Vec<(SteamId, Vec<PartyId>)>,
    next_id: u64,
}

impl PartyManager {
    /// The parties, in creation order.
    pub closed spec fn parties(&self) -> Seq<Party> {
        self.parties@
    }

    /// The party of each player.
    pub closed spec fn memberships(&self) -> Seq<(SteamId, PartyId)> {
        self.player_parties@
    }

    /// The invitations of each player.
    pub closed spec fn invitations(&self) -> Seq<(SteamId, Vec<PartyId>)> {
        self.player_invites@
    }

    /// The id the next party gets.
    pub closed spec fn spec_next_id(&self) -> u64 {
        self.next_id
    }

    /// The party with id `id`.
    pub open spec fn party_of(&self, id: PartyId) -> Option<Party> {
        let i = first_index(self.parties(), party_is(id));
        if i < 0 { None } else { Some(self.parties()[i]) }
    }

    /// No parties; the first id is 1.
    pub fn new() -> (r: Self)
        ensures
            r.parties().len() == 0 && r.memberships().len() == 0 && r.invitations().len() == 0,
            r.spec_next_id() == 1,
    {
        PartyManager { parties: Vec::new(), player_parties: Vec::new(), player_invites: Vec::new(), next_id: 1 }
    }

    fn find(&self, id: PartyId) -> (r: Option<usize>)
        ensures
            match r {
                Some(i) => i as int == first_index(self.parties@, party_is(id)) && i < self.parties@.len()
                    && self.parties@[i as int].id == id,
                None => first_index(self.parties@, party_is(id)) == -1,
            },
    {
        let ghost p = party_is(id);
        let mut i: usize = 0;
        while i < self.parties.len()
            invariant
                i <= self.parties@.len(),
                p == party_is(id),
                index_from(self.parties@, p, i as int) == first_index(self.parties@, p),
            decreases self.parties@.len() - i,
        {
            if self.parties[i].id == id {
                assert(p(self.parties@[i as int]));
                return Some(i);
            }
            assert(!p(self.parties@[i as int]));
            i = i + 1;
        }
        None
    }

    /// Creates a party led by `leader` under the next id; a leader already
    /// in a party leaves it first.
    pub fn create_party(&mut self, leader: SteamId, leader_name: &str, max_size: u32) -> (r: Result<PartyId, PartyError>)
        requires
            old(self).spec_next_id() < u64::MAX,
        ensures
            r matches Ok(id) ==> id.0 == old(self).spec_next_id()
                && final(self).spec_next_id() == old(self).spec_next_id() + 1
                && final(self).parties().last().id == id
                && final(self).parties().last().leader == leader
                && player_lookup(final(self).memberships(), leader) == Some(id),
            r is Err ==> player_lookup(old(self).memberships(), leader) is Some,
    {
        if self.get_player_party(leader).is_some() {
            match self.leave_party(leader) {
                Ok(()) => {},
                Err(e) => return Err(e),
            }
        }
        let id = PartyId::new(self.next_id);
        self.next_id = self.next_id + 1;
        let party = Party::new(id, leader, leader_name, max_size);
        self.parties.push(party);
        set_player(&mut self.player_parties, leader, id);
        Ok(id)
    }

    /// The party with id `id`.
    pub fn get_party(&self, id: PartyId) -> (r: Option<&Party>)
        ensures
            match self.party_of(id) {
                Some(p) => r == Some(&p),
                None => r is None,
            },
    {
        match self.find(id) {
            Some(i) => Some(&self.parties[i]),
            None => None,
        }
    }

    /// The party with id `id`, to change it in place.
    pub fn get_party_mut(&mut self, id: PartyId) -> (r: Option<&mut Party>)
        ensures
            ({
                let i = first_index(old(self).parties(), party_is(id));
                &&& i < 0 ==> r is None && final(self).parties() == old(self).parties()
                &&& i >= 0 ==> (r matches Some(p) && *p == old(self).parties()[i]
                    && final(self).parties() == old(self).parties().update(i, *final(p)))
            }),
            final(self).memberships() == old(self).memberships(),
            final(self).invitations() == old(self).invitations(),
            final(self).spec_next_id() == old(self).spec_next_id(),
    {
        match self.find(id) {
            Some(i) => Some(&mut self.parties[i]),
            None => None,
        }
    }

    /// The party `player` is in.
    pub fn get_player_party(&self, player: SteamId) -> (r: Option<PartyId>)
        ensures
            r == player_lookup(self.memberships(), player),
    {
        match find_player(&self.player_parties, player) {
            Some(i) => Some(self.player_parties[i].1),
            None => None,
        }
    }

    fn note_invite(&mut self, to: SteamId, party_id: PartyId)
        ensures
            final(self).parties() == old(self).parties(),
            final(self).memberships() == old(self).memberships(),
            final(self).spec_next_id() == old(self).spec_next_id(),
    {
        match find_player(&self.player_invites, to) {
            Some(i) => {
                let (who, mut ids) = self.player_invites.remove(i);
                ids.push(party_id);
                self.player_invites.insert(i, (who, ids));
            },
            None => {
                let mut ids: Vec<PartyId> = Vec::new();
                ids.push(party_id);
                self.player_invites.push((to, ids));
            },
        }
    }

    fn forget_invite(&mut self, player: SteamId, party_id: PartyId)
        ensures
            final(self).parties() == old(self).parties(),
            final(self).memberships() == old(self).memberships(),
            final(self).spec_next_id() == old(self).spec_next_id(),
    {
        if let Some(i) = find_player(&self.player_invites, player) {
            let (who, ids) = self.player_invites.remove(i);
            let mut kept: Vec<PartyId> = Vec::new();
            let mut k: usize = 0;
            while k < ids.len()
                invariant
                    k <= ids@.len(),
                decreases ids@.len() - k,
            {
                if ids[k] != party_id {
                    kept.push(ids[k]);
                }
                k = k + 1;
            }
            self.player_invites.insert(i, (who, kept));
        }
    }

    /// Sends an invitation to `to` from party `party_id`.
    pub fn send_invite(&mut self, party_id: PartyId, to: SteamId) -> (r: Result<(), PartyError>)
        ensures
            old(self).party_of(party_id) is None ==> r == Err::<(), PartyError>(PartyError::PartyNotFound),
            final(self).memberships() == old(self).memberships(),
            final(self).spec_next_id() == old(self).spec_next_id(),
    {
        let i = match self.find(party_id) {
            Some(i) => i,
            None => return Err(PartyError::PartyNotFound),
        };
        let mut party = self.parties.remove(i);
        let res = party.invite(to);
        self.parties.insert(i, party);
        match res {
            Ok(()) => {
                self.note_invite(to, party_id);
                Ok(())
            },
            Err(e) => Err(e),
        }
    }

    /// `player` joins party `party_id` on its invitation, leaving any other
    /// party first.
    pub fn accept_invite(&mut self, player: SteamId, name: &str, party_id: PartyId) -> (r: Result<(), PartyError>)
        ensures
            r is Ok ==> player_lookup(final(self).memberships(), player) == Some(party_id),
            final(self).spec_next_id() == old(self).spec_next_id(),
    {
        if let Some(current) = self.get_player_party(player) {
            if current != party_id {
                match self.leave_party(player) {
                    Ok(()) => {},
                    Err(e) => return Err(e),
                }
            }
        }
        let i = match self.find(party_id) {
            Some(i) => i,
            None => return Err(PartyError::PartyNotFound),
        };
        let mut party = self.parties.remove(i);
        let res = party.accept_invite(player, name);
        self.parties.insert(i, party);
        match res {
            Ok(()) => {},
            Err(e) => return Err(e),
        }
        set_player(&mut self.player_parties, player, party_id);
        self.forget_invite(player, party_id);
        Ok(())
    }

    /// `player` declines the invitation from party `party_id`.
    pub fn decline_invite(&mut self, player: SteamId, party_id: PartyId) -> (r: Result<(), PartyError>)
        ensures
            old(self).party_of(party_id) is None ==> r == Err::<(), PartyError>(PartyError::PartyNotFound),
            final(self).memberships() == old(self).memberships(),
            final(self).spec_next_id() == old(self).spec_next_id(),
    {
        let i = match self.find(party_id) {
            Some(i) => i,
            None => return Err(PartyError::PartyNotFound),
        };
        let mut party = self.parties.remove(i);
        let res = party.decline_invite(player);
        self.parties.insert(i, party);
        match res {
            Ok(()) => {},
            Err(e) => return Err(e),
        }
        self.forget_invite(player, party_id);
        Ok(())
    }

    /// `player` leaves their party and their membership entry is dropped;
    /// an emptied party is removed.
    pub fn leave_party(&mut self, player: SteamId) -> (r: Result<(), PartyError>)
        ensures
            player_lookup(old(self).memberships(), player) is None ==> r == Err::<(), PartyError>(PartyError::NotMember),
            forall|o: SteamId| o != player ==> #[trigger] player_lookup(final(self).memberships(), o)
                == player_lookup(old(self).memberships(), o),
            final(self).spec_next_id() == old(self).spec_next_id(),
    {
        let party_id = match self.get_player_party(player) {
            Some(id) => id,
            None => return Err(PartyError::NotMember),
        };
        let i = match self.find(party_id) {
            Some(i) => i,
            None => return Err(PartyError::PartyNotFound),
        };
        let mut party = self.parties.remove(i);
        let res = party.leave(player);
        if !party.is_empty() {
            self.parties.insert(i, party);
        }
        match res {
            Ok(()) => {},
            Err(e) => return Err(e),
        }
        remove_player(&mut self.player_parties, player);
        Ok(())
    }

    /// The leader of `kicker`'s party removes `target`.
    pub fn kick_player(&mut self, kicker: SteamId, target: SteamId) -> (r: Result<(), PartyError>)
        ensures
            player_lookup(old(self).memberships(), kicker) is None ==> r == Err::<(), PartyError>(PartyError::NotMember),
            forall|o: SteamId| o != target ==> #[trigger] player_lookup(final(self).memberships(), o)
                == player_lookup(old(self).memberships(), o),
            final(self).spec_next_id() == old(self).spec_next_id(),
    {
        let party_id = match self.get_player_party(kicker) {
            Some(id) => id,
            None => return Err(PartyError::NotMember),
        };
        let i = match self.find(party_id) {
            Some(i) => i,
            None => return Err(PartyError::PartyNotFound),
        };
        let mut party = self.parties.remove(i);
        let res = party.kick(kicker, target);
        self.parties.insert(i, party);
        match res {
            Ok(()) => {},
            Err(e) => return Err(e),
        }
        remove_player(&mut self.player_parties, target);
        Ok(())
    }

    /// The parties that invited `player`, in order.
    pub fn get_invites(&self, player: SteamId) -> (r: Vec<PartyId>)
        ensures
            match player_lookup(self.invitations(), player) {
                Some(v) => r@ == v@,
                None => r@.len() == 0,
            },
    {
        match find_player(&self.player_invites, player) {
            Some(i) => {
                let v = &self.player_invites[i].1;
                let mut out: Vec<PartyId> = Vec::new();
                let mut k: usize = 0;
                while k < v.len()
                    invariant
                        k <= v@.len(),
                        out@ == v@.subrange(0, k as int),
                    decreases v@.len() - k,
                {
                    out.push(v[k]);
                    k = k + 1;
                    assert(out@ =~= v@.subrange(0, k as int));
                }
                assert(v@.subrange(0, v@.len() as int) =~= v@);
                out
            },
            None => Vec::new(),
        }
    }

    /// Drops every party without members; the rest stay in order.
    pub fn cleanup_empty(&mut self)
        ensures
            forall|k: int| 0 <= k < final(self).parties().len() ==> (#[trigger] final(self).parties()[k]).members@.len() > 0,
            forall|k: int| 0 <= k < final(self).parties().len() ==> old(self).parties().contains(#[trigger] final(self).parties()[k]),
            final(self).memberships() == old(self).memberships(),
            final(self).spec_next_id() == old(self).spec_next_id(),
    {
        let mut rest: Vec<Party> = Vec::new();
        std::mem::swap(&mut rest, &mut self.parties);
        let ghost o = rest@;
        let ghost mut i: int = 0;
        while rest.len() > 0
            invariant
                0 <= i <= o.len(),
                rest@ == o.subrange(i, o.len() as int),
                o == old(self).parties@,
                self.player_parties == old(self).player_parties,
                self.next_id == old(self).next_id,
                forall|k: int| 0 <= k < self.parties@.len() ==> (#[trigger] self.parties@[k]).members@.len() > 0,
                forall|k: int| 0 <= k < self.parties@.len() ==> o.contains(#[trigger] self.parties@[k]),
            decreases rest@.len(),
        {
            let p = rest.remove(0);
            proof { assert(o[i] == p); }
            if p.members.len() > 0 {
                self.parties.push(p);
            }
            proof {
                i = i + 1;
                assert(rest@ =~= o.subrange(i, o.len() as int));
            }
        }
    }
}

impl Default for PartyManager {
    /// No parties.
    fn default() -> (r: Self)
        ensures
            r.parties().len() == 0,
    {
        PartyManager::new()
    }
}

} // verus!
