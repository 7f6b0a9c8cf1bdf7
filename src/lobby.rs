//! Lobbies: membership, owner, key-value data, search filters and a
//! registry, kept in memory.
use std::time::Instant;
use vstd::prelude::*;

use crate::keyed::{find_str, first_index, index_from, set_str, str_lookup};
use crate::steam_id::SteamId;
use crate::text::{chars_of, parse_i32, parse_i32_range};

verus! {

/// Who can find and join a lobby.
#[derive(Debug, Clone, Copy, PartialEq, Eq, Hash, Structural)]
pub enum LobbyType {
    Private,
    FriendsOnly,
    Public,
    Invisible,
}

impl LobbyType {
    /// The type with number `v` (0 private, 1 friends only, 2 public, 3 invisible).
    pub fn from_u8(v: u8) -> (r: Option<Self>)
        ensures
            r == match v {
                0 => Some(LobbyType::Private),
                1 => Some(LobbyType::FriendsOnly),
                2 => Some(LobbyType::Public),
                3 => Some(LobbyType::Invisible),
                _ => None::<LobbyType>,
            },
    {
        match v {
            0 => Some(LobbyType::Private),
            1 => Some(LobbyType::FriendsOnly),
            2 => Some(LobbyType::Public),
            3 => Some(LobbyType::Invisible),
            _ => None,
        }
    }

    /// Public and friends-only lobbies show up in searches.
    pub open spec fn spec_searchable(self) -> bool {
        self == LobbyType::Public || self == LobbyType::FriendsOnly
    }

    /// Public and friends-only lobbies show up in searches.
    pub fn is_searchable(&self) -> (r: bool)
        ensures
            r == self.spec_searchable(),
    {
        *self == LobbyType::Public || *self == LobbyType::FriendsOnly
    }
}

/// How a search filter compares.
#[derive(Debug, Clone, Copy, PartialEq, Eq, Structural)]
pub enum LobbyComparison {
    EqualToOrLessThan,
    LessThan,
    Equal,
    GreaterThan,
    EqualToOrGreaterThan,
    NotEqual,
}

/// How far a search reaches.
#[derive(Debug, Clone, Copy, PartialEq, Eq, Structural)]
pub enum LobbyDistanceFilter {
    Close,
    Default,
    Far,
    Worldwide,
}

impl Default for LobbyDistanceFilter {
    /// The default reach.
    fn default() -> (r: Self)
        ensures
            r == LobbyDistanceFilter::Default,
    {
        LobbyDistanceFilter::Default
    }
}

/// A lobby's id; 0 is invalid.
#[derive(Debug, Clone, Copy, PartialEq, Eq, Hash, Structural)]
pub struct LobbyId(pub u64);

impl LobbyId {
    /// The invalid id.
    pub fn invalid() -> (r: Self)
        ensures
            r.0 == 0,
    {
        LobbyId(0)
    }

    /// The id `id`.
    pub fn new(id: u64) -> (r: Self)
        ensures
            r.0 == id,
    {
        LobbyId(id)
    }

    /// Non-zero.
    pub fn is_valid(&self) -> (r: bool)
        ensures
            r == (self.0 != 0),
    {
        self.0 != 0
    }

    /// The raw value.
    pub fn as_u64(&self) -> (r: u64)
        ensures
            r == self.0,
    {
        self.0
    }
}

/// A member and their own key-value data.
#[derive(Debug, Clone)]
pub struct LobbyMember {
    pub steam_id: SteamId,
    pub joined_at: Instant,
    pub data: Vec<(String, String)>,
}

impl LobbyMember {
    /// A member who joined now, with no data.
    pub fn new(steam_id: SteamId) -> (r: Self)
        ensures
            r.steam_id == steam_id,
            r.data@.len() == 0,
    {
        LobbyMember { steam_id, joined_at: Instant::now(), data: Vec::new() }
    }
}

/// The game server a lobby plays on.
#[derive(Debug, Clone, Copy)]
pub struct LobbyGameServer {
    pub ip: u32,
    pub port: u16,
    pub server_id: Option<SteamId>,
}

/// Longest key, in bytes.
pub const MAX_LOBBY_KEY_LENGTH: usize = 255;

/// Longest value, in bytes.
pub const MAX_LOBBY_VALUE_LENGTH: usize = 8192;

/// Most data entries of a lobby.
pub const MAX_LOBBY_DATA_ENTRIES: usize = 256;

/// Why a lobby operation was refused.
#[derive(Debug, Clone, Copy, PartialEq, Eq, Structural)]
pub enum LobbyError {
    LobbyFull,
    LobbyNotJoinable,
    NotMember,
    AlreadyMember,
    NotOwner,
    KeyTooLong,
    ValueTooLong,
    TooManyEntries,
    LimitTooLow,
    InvalidLobby,
}

/// Whether the member is `id`.
pub open spec fn member_is(id: SteamId) -> spec_fn(LobbyMember) -> bool {
    |m: LobbyMember| m.steam_id == id
}

/// Whether one of `ms` is `id`.
pub open spec fn has_member(ms: Seq<LobbyMember>, id: SteamId) -> bool {
    exists|k: int| 0 <= k < ms.len() && (#[trigger] ms[k]).steam_id == id
}

/// The members other than `id`, in order.
pub open spec fn without_member(ms: Seq<LobbyMember>, id: SteamId) -> Seq<LobbyMember>
    decreases ms.len(),
{
    if ms.len() == 0 {
        ms
    } else if ms.last().steam_id == id {
        without_member(ms.drop_last(), id)
    } else {
        without_member(ms.drop_last(), id).push(ms.last())
    }
}

proof fn lemma_without_len(ms: Seq<LobbyMember>, id: SteamId)
    ensures
        without_member(ms, id).len() <= ms.len(),
        without_member(ms, id).len() == ms.len() <==> !has_member(ms, id),
        !has_member(ms, id) ==> without_member(ms, id) == ms,
    decreases ms.len(),
{
    if ms.len() > 0 {
        let t = ms.drop_last();
        lemma_without_len(t, id);
        if !has_member(ms, id) {
            assert(ms[ms.len() - 1].steam_id != id);
            if has_member(t, id) {
                let k = choose|k: int| 0 <= k < t.len() && (#[trigger] t[k]).steam_id == id;
                assert(ms[k] == t[k]);
            }
            assert(t.push(ms.last()) =~= ms);
        }
        if has_member(t, id) {
            let k = choose|k: int| 0 <= k < t.len() && (#[trigger] t[k]).steam_id == id;
            assert(ms[k] == t[k]);
        }
        if has_member(ms, id) && ms.last().steam_id != id {
            let k = choose|k: int| 0 <= k < ms.len() && (#[trigger] ms[k]).steam_id == id;
            assert(t[k] == ms[k]);
        }
        if ms.last().steam_id == id {
            assert(ms[ms.len() - 1].steam_id == id);
        }
    }
}

/// A lobby.
#[derive(Debug, Clone)]
pub struct Lobby {
    pub id: LobbyId,
    pub lobby_type: LobbyType,
    pub owner: SteamId,
    pub members: Vec<LobbyMember>,
    pub max_members: u32,
    pub created_at: Instant,
    pub data: Vec<(String, String)>,
    pub game_server: Option<LobbyGameServer>,
    pub joinable: bool,
}

impl Lobby {
    /// The value of lobby key `k`.
    pub open spec fn data_of(&self, k: Seq<char>) -> Option<Seq<char>> {
        match str_lookup(self.data@, k) {
            Some(v) => Some(v@),
            None => None,
        }
    }

    /// A joinable lobby whose only member is its owner; the limit is at least 1.
    pub fn new(id: LobbyId, owner: SteamId, lobby_type: LobbyType, max_members: u32) -> (r: Self)
        ensures
            r.id == id && r.owner == owner && r.lobby_type == lobby_type,
            r.members@.len() == 1 && r.members@[0].steam_id == owner,
            r.max_members == if max_members >= 1 { max_members } else { 1 },
            r.data@.len() == 0 && r.game_server is None && r.joinable,
    {
        let owner_member = LobbyMember::new(owner);
        let mut members: Vec<LobbyMember> = Vec::new();
        members.push(owner_member);
        Lobby {
            id,
            lobby_type,
            owner,
            members,
            max_members: if max_members >= 1 { max_members } else { 1 },
            created_at: Instant::now(),
            data: Vec::new(),
            game_server: None,
            joinable: true,
        }
    }

    /// Number of members (cut to 32 bits).
    pub fn member_count(&self) -> (r: u32)
        ensures
            r == self.members@.len() as u32,
    {
        self.members.len() as u32
    }

    /// Free places: the limit minus the members, never below zero.
    pub fn available_slots(&self) -> (r: u32)
        ensures
            r == if self.max_members >= self.members@.len() as u32 {
                (self.max_members - self.members@.len() as u32) as u32
            } else {
                0
            },
    {
        self.max_members.saturating_sub(self.member_count())
    }

    /// No free place.
    pub fn is_full(&self) -> (r: bool)
        ensures
            r == (self.members@.len() as u32 >= self.max_members),
    {
        self.member_count() >= self.max_members
    }

    /// Whether `steam_id` is a member.
    pub fn is_member(&self, steam_id: SteamId) -> (r: bool)
        ensures
            r == has_member(self.members@, steam_id),
    {
        let mut i: usize = 0;
        while i < self.members.len()
            invariant
                i <= self.members@.len(),
                forall|k: int| 0 <= k < i ==> self.members@[k].steam_id != steam_id,
            decreases self.members@.len() - i,
        {
            if self.members[i].steam_id == steam_id {
                assert(self.members@[i as int].steam_id == steam_id);
                return true;
            }
            i = i + 1;
        }
        false
    }

    /// Whether `steam_id` owns the lobby.
    pub fn is_owner(&self, steam_id: SteamId) -> (r: bool)
        ensures
            r == (self.owner == steam_id),
    {
        self.owner == steam_id
    }

    /// Adds a member: refused when the lobby is not joinable, full, or
    /// already has them.
    pub fn add_member(&mut self, steam_id: SteamId) -> (r: Result<(), LobbyError>)
        ensures
            r == if !old(self).joinable {
                Err::<(), LobbyError>(LobbyError::LobbyNotJoinable)
            } else if old(self).members@.len() as u32 >= old(self).max_members {
                Err(LobbyError::LobbyFull)
            } else if has_member(old(self).members@, steam_id) {
                Err(LobbyError::AlreadyMember)
            } else {
                Ok(())
            },
            r is Ok ==> final(self).members@.len() == old(self).members@.len() + 1
                && final(self).members@.last().steam_id == steam_id
                && final(self).members@.subrange(0, old(self).members@.len() as int) == old(self).members@,
            r is Err ==> final(self).members@ == old(self).members@,
            final(self).owner == old(self).owner,
            final(self).max_members == old(self).max_members,
            final(self).data@ == old(self).data@,
    {
        if !self.joinable {
            return Err(LobbyError::LobbyNotJoinable);
        }
        if self.is_full() {
            return Err(LobbyError::LobbyFull);
        }
        if self.is_member(steam_id) {
            return Err(LobbyError::AlreadyMember);
        }
        self.members.push(LobbyMember::new(steam_id));
        assert(self.members@.subrange(0, old(self).members@.len() as int) =~= old(self).members@);
        Ok(())
    }

    /// Removes a member; when the owner leaves, the first remaining member
    /// becomes owner.
    pub fn remove_member(&mut self, steam_id: SteamId) -> (r: Result<(), LobbyError>)
        ensures
            !has_member(old(self).members@, steam_id) ==> r == Err::<(), LobbyError>(LobbyError::NotMember)
                && final(self).members@ == old(self).members@ && final(self).owner == old(self).owner,
            has_member(old(self).members@, steam_id) ==> r is Ok
                && final(self).members@ == without_member(old(self).members@, steam_id)
                && final(self).owner == if old(self).owner == steam_id && final(self).members@.len() > 0 {
                    final(self).members@[0].steam_id
                } else {
                    old(self).owner
                },
            final(self).max_members == old(self).max_members,
            final(self).data@ == old(self).data@,
    {
        let before_len = self.members.len();
        let mut rest: Vec<LobbyMember> = Vec::new();
        std::mem::swap(&mut rest, &mut self.members);
        let ghost o = rest@;
        let ghost mut i: int = 0;
        while rest.len() > 0
            invariant
                0 <= i <= o.len(),
                rest@ == o.subrange(i, o.len() as int),
                self.members@ == without_member(o.take(i), steam_id),
                self.owner == old(self).owner,
                self.max_members == old(self).max_members,
                self.data@ == old(self).data@,
                o == old(self).members@,
            decreases rest@.len(),
        {
            let m = rest.remove(0);
            proof { assert(o[i] == m); }
            if m.steam_id != steam_id {
                self.members.push(m);
            }
            proof {
                assert(o.take(i + 1).drop_last() =~= o.take(i));
                i = i + 1;
                assert(rest@ =~= o.subrange(i, o.len() as int));
            }
        }
        proof {
            assert(o.take(o.len() as int) =~= o);
            lemma_without_len(o, steam_id);
        }
        if self.members.len() == before_len {
            return Err(LobbyError::NotMember);
        }
        if self.owner == steam_id && self.members.len() > 0 {
            self.owner = self.members[0].steam_id;
        }
        Ok(())
    }

    /// Sets lobby key `key`: refused for a key over 255 bytes, a value over
    /// 8192 bytes, or a new key when 256 are set.
    pub fn set_data(&mut self, key: &str, value: &str) -> (r: Result<(), LobbyError>)
        ensures
            r == if key.len() > MAX_LOBBY_KEY_LENGTH {
                Err::<(), LobbyError>(LobbyError::KeyTooLong)
            } else if value.len() > MAX_LOBBY_VALUE_LENGTH {
                Err(LobbyError::ValueTooLong)
            } else if old(self).data@.len() >= MAX_LOBBY_DATA_ENTRIES && old(self).data_of(key@) is None {
                Err(LobbyError::TooManyEntries)
            } else {
                Ok(())
            },
            r is Ok ==> final(self).data_of(key@) == Some(value@)
                && forall|k: Seq<char>| k != key@ ==> #[trigger] final(self).data_of(k) == old(self).data_of(k),
            r is Err ==> final(self).data@ == old(self).data@,
            final(self).members@ == old(self).members@,
            final(self).owner == old(self).owner,
            final(self).max_members == old(self).max_members,
    {
        if key.len() > MAX_LOBBY_KEY_LENGTH {
            return Err(LobbyError::KeyTooLong);
        }
        if value.len() > MAX_LOBBY_VALUE_LENGTH {
            return Err(LobbyError::ValueTooLong);
        }
        if self.data.len() >= MAX_LOBBY_DATA_ENTRIES && find_str(&self.data, key).is_none() {
            return Err(LobbyError::TooManyEntries);
        }
        set_str(&mut self.data, key, value.to_owned());
        proof {
            assert forall|k: Seq<char>| k != key@ implies #[trigger] self.data_of(k) == old(self).data_of(k) by {
                assert(str_lookup(self.data@, k) == str_lookup(old(self).data@, k));
            }
        }
        Ok(())
    }

    /// The value of lobby key `key`.
    pub fn get_data(&self, key: &str) -> (r: Option<&str>)
        ensures
            match self.data_of(key@) {
                Some(v) => r matches Some(s) && s@ == v,
                None => r is None,
            },
    {
        match find_str(&self.data, key) {
            Some(i) => Some(self.data[i].1.as_str()),
            None => None,
        }
    }

    fn find_member(&self, steam_id: SteamId) -> (r: Option<usize>)
        ensures
            match r {
                Some(i) => i as int == first_index(self.members@, member_is(steam_id)) && i < self.members@.len(),
                None => first_index(self.members@, member_is(steam_id)) == -1,
            },
    {
        let ghost p = member_is(steam_id);
        let mut i: usize = 0;
        while i < self.members.len()
            invariant
                i <= self.members@.len(),
                p == member_is(steam_id),
                index_from(self.members@, p, i as int) == first_index(self.members@, p),
            decreases self.members@.len() - i,
        {
            if self.members[i].steam_id == steam_id {
                assert(p(self.members@[i as int]));
                return Some(i);
            }
            assert(!p(self.members@[i as int]));
            i = i + 1;
        }
        None
    }

    /// Sets key `key` of member `steam_id`.
    pub fn set_member_data(&mut self, steam_id: SteamId, key: &str, value: &str) -> (r: Result<(), LobbyError>)
        ensures
            r == if key.len() > MAX_LOBBY_KEY_LENGTH {
                Err::<(), LobbyError>(LobbyError::KeyTooLong)
            } else if value.len() > MAX_LOBBY_VALUE_LENGTH {
                Err(LobbyError::ValueTooLong)
            } else if first_index(old(self).members@, member_is(steam_id)) < 0 {
                Err(LobbyError::NotMember)
            } else {
                Ok(())
            },
            r is Ok ==> ({
                let i = first_index(old(self).members@, member_is(steam_id));
                &&& final(self).members@.len() == old(self).members@.len()
                &&& final(self).members@[i].steam_id == steam_id
                &&& str_lookup(final(self).members@[i].data@, key@) matches Some(v) && v@ == value@
            }),
            r is Err ==> final(self).members@ == old(self).members@,
            final(self).owner == old(self).owner,
            final(self).data@ == old(self).data@,
    {
        if key.len() > MAX_LOBBY_KEY_LENGTH {
            return Err(LobbyError::KeyTooLong);
        }
        if value.len() > MAX_LOBBY_VALUE_LENGTH {
            return Err(LobbyError::ValueTooLong);
        }
        let i = match self.find_member(steam_id) {
            Some(i) => i,
            None => return Err(LobbyError::NotMember),
        };
        proof { crate::keyed::lemma_found(self.members@, member_is(steam_id), 0); }
        let mut m = self.members.remove(i);
        set_str(&mut m.data, key, value.to_owned());
        self.members.insert(i, m);
        Ok(())
    }

    /// Key `key` of member `steam_id`.
    pub fn get_member_data(&self, steam_id: SteamId, key: &str) -> (r: Option<&str>)
        ensures
            ({
                let i = first_index(self.members@, member_is(steam_id));
                &&& i < 0 ==> r is None
                &&& i >= 0 ==> match str_lookup(self.members@[i].data@, key@) {
                    Some(v) => r matches Some(s) && s@ == v@,
                    None => r is None,
                }
            }),
    {
        match self.find_member(steam_id) {
            Some(i) => match find_str(&self.members[i].data, key) {
                Some(j) => Some(self.members[i].data[j].1.as_str()),
                None => None,
            },
            None => None,
        }
    }

    /// Records the game server.
    pub fn set_game_server(&mut self, ip: u32, port: u16, server_id: Option<SteamId>)
        ensures
            final(self).game_server == Some(LobbyGameServer { ip, port, server_id }),
            final(self).members@ == old(self).members@,
            final(self).owner == old(self).owner,
    {
        self.game_server = Some(LobbyGameServer { ip, port, server_id });
    }

    /// Sets the member limit; refused below the current member count.
    pub fn set_member_limit(&mut self, limit: u32) -> (r: Result<(), LobbyError>)
        ensures
            limit < old(self).members@.len() as u32 ==> r == Err::<(), LobbyError>(LobbyError::LimitTooLow)
                && final(self).max_members == old(self).max_members,
            limit >= old(self).members@.len() as u32 ==> r is Ok && final(self).max_members == limit,
            final(self).members@ == old(self).members@,
    {
        if limit < self.member_count() {
            return Err(LobbyError::LimitTooLow);
        }
        self.max_members = limit;
        Ok(())
    }

    /// Hands ownership to a member.
    pub fn set_owner(&mut self, new_owner: SteamId) -> (r: Result<(), LobbyError>)
        ensures
            !has_member(old(self).members@, new_owner) ==> r == Err::<(), LobbyError>(LobbyError::NotMember)
                && final(self).owner == old(self).owner,
            has_member(old(self).members@, new_owner) ==> r is Ok && final(self).owner == new_owner,
            final(self).members@ == old(self).members@,
    {
        if !self.is_member(new_owner) {
            return Err(LobbyError::NotMember);
        }
        self.owner = new_owner;
        Ok(())
    }
}

/// Criteria of a lobby search.
#[derive(Debug, Clone)]
pub struct LobbySearchFilter {
    pub string_filters: Vec<(String, String, LobbyComparison)>,
    pub numeric_filters: Vec<(String, i32, LobbyComparison)>,
    pub slots_available: Option<u32>,
    pub distance: LobbyDistanceFilter,
    pub max_results: Option<u32>,
}

/// Whether `actual` passes a numeric comparison against `expected`.
pub open spec fn compare_i32(actual: int, expected: int, c: LobbyComparison) -> bool {
    match c {
        LobbyComparison::Equal => actual == expected,
        LobbyComparison::NotEqual => actual != expected,
        LobbyComparison::LessThan => actual < expected,
        LobbyComparison::GreaterThan => actual > expected,
        LobbyComparison::EqualToOrLessThan => actual <= expected,
        LobbyComparison::EqualToOrGreaterThan => actual >= expected,
    }
}

/// The number stored under a key: its value read as an `i32`, 0 when
/// missing or not a number.
pub open spec fn numeric_value(l: Lobby, k: Seq<char>) -> int {
    match l.data_of(k) {
        Some(v) => match parse_i32(v) {
            Some(n) => n,
            None => 0,
        },
        None => 0,
    }
}

/// The stored text under a key, empty when missing.
pub open spec fn text_value(l: Lobby, k: Seq<char>) -> Seq<char> {
    match l.data_of(k) {
        Some(v) => v,
        None => Seq::empty(),
    }
}

/// Whether lobby `l` passes filter `f`. Text filters compare for equality
/// (inequality for `NotEqual`); numeric filters read the value as a number.
pub open spec fn filter_matches(f: LobbySearchFilter, l: Lobby) -> bool {
    &&& match f.slots_available {
        Some(s) => (if l.max_members >= l.members@.len() as u32 {
            (l.max_members - l.members@.len() as u32) as u32
        } else {
            0
        }) >= s,
        None => true,
    }
    &&& forall|k: int| 0 <= k < f.string_filters@.len() ==> {
        let (key, want, c) = #[trigger] f.string_filters@[k];
        if c == LobbyComparison::NotEqual {
            text_value(l, key@) != want@
        } else {
            text_value(l, key@) == want@
        }
    }
    &&& forall|k: int| 0 <= k < f.numeric_filters@.len() ==> {
        let (key, want, c) = #[trigger] f.numeric_filters@[k];
        compare_i32(numeric_value(l, key@), want as int, c)
    }
}

impl LobbySearchFilter {
    /// No criteria.
    pub fn new() -> (r: Self)
        ensures
            r.string_filters@.len() == 0 && r.numeric_filters@.len() == 0,
            r.slots_available is None && r.max_results is None,
            r.distance == LobbyDistanceFilter::Default,
    {
        LobbySearchFilter {
            string_filters: Vec::new(),
            numeric_filters: Vec::new(),
            slots_available: None,
            distance: LobbyDistanceFilter::Default,
            max_results: None,
        }
    }

    /// Adds a text criterion.
    pub fn with_string_filter(self, key: &str, value: &str, comparison: LobbyComparison) -> (r: Self)
        ensures
            r.string_filters@.len() == self.string_filters@.len() + 1,
            r.string_filters@.subrange(0, self.string_filters@.len() as int) == self.string_filters@,
            r.string_filters@.last().0@ == key@ && r.string_filters@.last().1@ == value@
                && r.string_filters@.last().2 == comparison,
            r.numeric_filters == self.numeric_filters,
            r.slots_available == self.slots_available && r.max_results == self.max_results,
    {
        let mut s = self;
        s.string_filters.push((key.to_owned(), value.to_owned(), comparison));
        assert(s.string_filters@.subrange(0, self.string_filters@.len() as int) =~= self.string_filters@);
        s
    }

    /// Adds a numeric criterion.
    pub fn with_numeric_filter(self, key: &str, value: i32, comparison: LobbyComparison) -> (r: Self)
        ensures
            r.numeric_filters@.len() == self.numeric_filters@.len() + 1,
            r.numeric_filters@.subrange(0, self.numeric_filters@.len() as int) == self.numeric_filters@,
            r.numeric_filters@.last().0@ == key@ && r.numeric_filters@.last().1 == value
                && r.numeric_filters@.last().2 == comparison,
            r.string_filters == self.string_filters,
            r.slots_available == self.slots_available && r.max_results == self.max_results,
    {
        let mut s = self;
        s.numeric_filters.push((key.to_owned(), value, comparison));
        assert(s.numeric_filters@.subrange(0, self.numeric_filters@.len() as int) =~= self.numeric_filters@);
        s
    }

    /// Requires at least `slots` free places.
    pub fn with_slots_available(self, slots: u32) -> (r: Self)
        ensures
            r.slots_available == Some(slots),
            r.string_filters == self.string_filters && r.numeric_filters == self.numeric_filters,
            r.max_results == self.max_results,
    {
        let mut s = self;
        s.slots_available = Some(slots);
        s
    }

    /// Sets the reach.
    pub fn with_distance(self, distance: LobbyDistanceFilter) -> (r: Self)
        ensures
            r.distance == distance,
            r.string_filters == self.string_filters && r.numeric_filters == self.numeric_filters,
            r.slots_available == self.slots_available && r.max_results == self.max_results,
    {
        let mut s = self;
        s.distance = distance;
        s
    }

    /// Caps the number of results.
    pub fn with_max_results(self, max: u32) -> (r: Self)
        ensures
            r.max_results == Some(max),
            r.string_filters == self.string_filters && r.numeric_filters == self.numeric_filters,
            r.slots_available == self.slots_available,
    {
        let mut s = self;
        s.max_results = Some(max);
        s
    }

    /// Whether `lobby` passes every criterion.
    pub fn matches(&self, lobby: &Lobby) -> (r: bool)
        ensures
            r == filter_matches(*self, *lobby),
    {
        if let Some(slots) = self.slots_available {
            if lobby.available_slots() < slots {
                return false;
            }
        }
        let mut i: usize = 0;
        while i < self.string_filters.len()
            invariant
                i <= self.string_filters@.len(),
                forall|k: int| 0 <= k < i ==> {
                    let (key, want, c) = #[trigger] self.string_filters@[k];
                    if c == LobbyComparison::NotEqual {
                        text_value(*lobby, key@) != want@
                    } else {
                        text_value(*lobby, key@) == want@
                    }
                },
            decreases self.string_filters@.len() - i,
        {
            let (key, want, c) = (&self.string_filters[i].0, &self.string_filters[i].1, self.string_filters[i].2);
            let actual: String = match lobby.get_data(key.as_str()) {
                Some(v) => v.to_owned(),
                None => String::new(),
            };
            let same = actual == *want;
            let ok = if c == LobbyComparison::NotEqual { !same } else { same };
            if !ok {
                return false;
            }
            i = i + 1;
        }
        let mut j: usize = 0;
        while j < self.numeric_filters.len()
            invariant
                j <= self.numeric_filters@.len(),
                forall|k: int| 0 <= k < self.string_filters@.len() ==> {
                    let (key, want, c) = #[trigger] self.string_filters@[k];
                    if c == LobbyComparison::NotEqual {
                        text_value(*lobby, key@) != want@
                    } else {
                        text_value(*lobby, key@) == want@
                    }
                },
                forall|k: int| 0 <= k < j ==> {
                    let (key, want, c) = #[trigger] self.numeric_filters@[k];
                    compare_i32(numeric_value(*lobby, key@), want as int, c)
                },
            decreases self.numeric_filters@.len() - j,
        {
            let key = &self.numeric_filters[j].0;
            let want = self.numeric_filters[j].1;
            let c = self.numeric_filters[j].2;
            let actual: i32 = match lobby.get_data(key.as_str()) {
                Some(v) => {
                    let chars = chars_of(v);
                    proof { assert(chars@.subrange(0, chars@.len() as int) =~= chars@); }
                    match parse_i32_range(&chars, 0, chars.len()) {
                        Some(n) => n,
                        None => 0,
                    }
                },
                None => 0,
            };
            let ok = match c {
                LobbyComparison::Equal => actual == want,
                LobbyComparison::NotEqual => actual != want,
                LobbyComparison::LessThan => actual < want,
                LobbyComparison::GreaterThan => actual > want,
                LobbyComparison::EqualToOrLessThan => actual <= want,
                LobbyComparison::EqualToOrGreaterThan => actual >= want,
            };
            if !ok {
                return false;
            }
            j = j + 1;
        }
        true
    }
}

impl Default for LobbySearchFilter {
    /// No criteria.
    fn default() -> (r: Self)
        ensures
            r.string_filters@.len() == 0 && r.numeric_filters@.len() == 0,
    {
        LobbySearchFilter::new()
    }
}

/// Whether a lobby has id `id`.
pub open spec fn lobby_is(id: LobbyId) -> spec_fn(Lobby) -> bool {
    |l: Lobby| l.id == id
}

/// All lobbies, with ids handed out in increasing order.
pub struct LobbyManager {
    lobbies: Vec<Lobby>,
    next_id: u64,
}

impl LobbyManager {
    /// The lobbies, in creation order.
    pub closed spec fn lobbies(&self) -> Seq<Lobby> {
        self.lobbies@
    }

    /// The id the next lobby gets.
    pub closed spec fn spec_next_id(&self) -> u64 {
        self.next_id
    }

    /// The lobby with id `id`.
    pub open spec fn lobby_of(&self, id: LobbyId) -> Option<Lobby> {
        let i = first_index(self.lobbies(), lobby_is(id));
        if i < 0 { None } else { Some(self.lobbies()[i]) }
    }

    /// No lobbies; the first id is 1.
    pub fn new() -> (r: Self)
        ensures
            r.lobbies().len() == 0,
            r.spec_next_id() == 1,
    {
        LobbyManager { lobbies: Vec::new(), next_id: 1 }
    }

    /// Creates a lobby owned by `owner` under the next id.
    pub fn create_lobby(&mut self, owner: SteamId, lobby_type: LobbyType, max_members: u32) -> (r: LobbyId)
        requires
            old(self).spec_next_id() < u64::MAX,
        ensures
            r.0 == old(self).spec_next_id(),
            final(self).spec_next_id() == old(self).spec_next_id() + 1,
            final(self).lobbies().len() == old(self).lobbies().len() + 1,
            final(self).lobbies().subrange(0, old(self).lobbies().len() as int) == old(self).lobbies(),
            final(self).lobbies().last().id == r && final(self).lobbies().last().owner == owner
                && final(self).lobbies().last().lobby_type == lobby_type,
    {
        let id = LobbyId::new(self.next_id);
        self.next_id = self.next_id + 1;
        let lobby = Lobby::new(id, owner, lobby_type, max_members);
        self.lobbies.push(lobby);
        assert(self.lobbies@.subrange(0, old(self).lobbies@.len() as int) =~= old(self).lobbies@);
        id
    }

    fn find(&self, id: LobbyId) -> (r: Option<usize>)
        ensures
            match r {
                Some(i) => i as int == first_index(self.lobbies@, lobby_is(id)) && i < self.lobbies@.len(),
                None => first_index(self.lobbies@, lobby_is(id)) == -1,
            },
    {
        let ghost p = lobby_is(id);
        let mut i: usize = 0;
        while i < self.lobbies.len()
            invariant
                i <= self.lobbies@.len(),
                p == lobby_is(id),
                index_from(self.lobbies@, p, i as int) == first_index(self.lobbies@, p),
            decreases self.lobbies@.len() - i,
        {
            if self.lobbies[i].id == id {
                assert(p(self.lobbies@[i as int]));
                return Some(i);
            }
            assert(!p(self.lobbies@[i as int]));
            i = i + 1;
        }
        None
    }

    /// The lobby with id `id`.
    pub fn get_lobby(&self, id: LobbyId) -> (r: Option<&Lobby>)
        ensures
            match self.lobby_of(id) {
                Some(l) => r == Some(&l),
                None => r is None,
            },
    {
        match self.find(id) {
            Some(i) => Some(&self.lobbies[i]),
            None => None,
        }
    }

    /// The lobby with id `id`, to change it in place.
    pub fn get_lobby_mut(&mut self, id: LobbyId) -> (r: Option<&mut Lobby>)
        ensures
            ({
                let i = first_index(old(self).lobbies(), lobby_is(id));
                &&& i < 0 ==> r is None && final(self).lobbies() == old(self).lobbies()
                &&& i >= 0 ==> (r matches Some(l) && *l == old(self).lobbies()[i]
                    && final(self).lobbies() == old(self).lobbies().update(i, *final(l)))
            }),
            final(self).spec_next_id() == old(self).spec_next_id(),
    {
        match self.find(id) {
            Some(i) => Some(&mut self.lobbies[i]),
            None => None,
        }
    }

    /// Removes and returns the lobby with id `id`.
    pub fn remove_lobby(&mut self, id: LobbyId) -> (r: Option<Lobby>)
        ensures
            ({
                let i = first_index(old(self).lobbies(), lobby_is(id));
                &&& i < 0 ==> r is None && final(self).lobbies() == old(self).lobbies()
                &&& i >= 0 ==> r == Some(old(self).lobbies()[i]) && final(self).lobbies() == old(self).lobbies().remove(i)
            }),
            final(self).spec_next_id() == old(self).spec_next_id(),
    {
        match self.find(id) {
            Some(i) => Some(self.lobbies.remove(i)),
            None => None,
        }
    }

    /// The searchable, joinable lobbies that pass `filter`, in creation
    /// order, at most `max_results` of them.
    pub fn search(&self, filter: &LobbySearchFilter) -> (r: Vec<&Lobby>)
        ensures
            forall|k: int| 0 <= k < r@.len() ==> {
                let l = *(#[trigger] r@[k]);
                l.lobby_type.spec_searchable() && l.joinable && filter_matches(*filter, l)
                    && self.lobbies().contains(l)
            },
            filter.max_results matches Some(m) ==> r@.len() <= m,
    {
        let mut out: Vec<&Lobby> = Vec::new();
        let mut i: usize = 0;
        while i < self.lobbies.len()
            invariant
                i <= self.lobbies@.len(),
                forall|k: int| 0 <= k < out@.len() ==> {
                    let l = *(#[trigger] out@[k]);
                    l.lobby_type.spec_searchable() && l.joinable && filter_matches(*filter, l)
                        && self.lobbies@.contains(l)
                },
            decreases self.lobbies@.len() - i,
        {
            let l = &self.lobbies[i];
            if l.lobby_type.is_searchable() && l.joinable && filter.matches(l) {
                out.push(l);
                proof {
                    assert(self.lobbies@[i as int] == *l);
                }
            }
            i = i + 1;
        }
        if let Some(max) = filter.max_results {
            if (max as usize) < out.len() {
                out.truncate(max as usize);
            }
        }
        out
    }

    /// Drops every lobby without members; the rest stay in order.
    pub fn cleanup_empty(&mut self)
        ensures
            forall|k: int| 0 <= k < final(self).lobbies().len() ==> (#[trigger] final(self).lobbies()[k]).members@.len() > 0,
            forall|k: int| 0 <= k < final(self).lobbies().len() ==> old(self).lobbies().contains(#[trigger] final(self).lobbies()[k]),
            final(self).spec_next_id() == old(self).spec_next_id(),
    {
        let mut rest: Vec<Lobby> = Vec::new();
        std::mem::swap(&mut rest, &mut self.lobbies);
        let ghost o = rest@;
        let ghost mut i: int = 0;
        while rest.len() > 0
            invariant
                0 <= i <= o.len(),
                rest@ == o.subrange(i, o.len() as int),
                o == old(self).lobbies@,
                self.next_id == old(self).next_id,
                forall|k: int| 0 <= k < self.lobbies@.len() ==> (#[trigger] self.lobbies@[k]).members@.len() > 0,
                forall|k: int| 0 <= k < self.lobbies@.len() ==> o.contains(#[trigger] self.lobbies@[k]),
            decreases rest@.len(),
        {
            let l = rest.remove(0);
            proof { assert(o[i] == l); }
            if l.members.len() > 0 {
                self.lobbies.push(l);
            }
            proof {
                i = i + 1;
                assert(rest@ =~= o.subrange(i, o.len() as int));
            }
        }
    }

    /// The ids of the lobbies `steam_id` belongs to, in creation order.
    pub fn get_player_lobbies(&self, steam_id: SteamId) -> (r: Vec<LobbyId>)
        ensures
            r@ == self.lobbies().filter_map(member_lobby(steam_id)),
    {
        let ghost f = member_lobby(steam_id);
        let mut out: Vec<LobbyId> = Vec::new();
        let mut i: usize = 0;
        assert(out@ =~= self.lobbies@.take(0).filter_map(f));
        while i < self.lobbies.len()
            invariant
                i <= self.lobbies@.len(),
                f == member_lobby(steam_id),
                out@ == self.lobbies@.take(i as int).filter_map(f),
            decreases self.lobbies@.len() - i,
        {
            proof { self.lobbies@.lemma_filter_map_take_succ(f, i as int); }
            if self.lobbies[i].is_member(steam_id) {
                out.push(self.lobbies[i].id);
            }
            i = i + 1;
            assert(out@ =~= self.lobbies@.take(i as int).filter_map(f));
        }
        assert(self.lobbies@.take(self.lobbies@.len() as int) =~= self.lobbies@);
        out
    }
}

/// The id of a lobby that has member `id`.
pub open spec fn member_lobby(id: SteamId) -> spec_fn(Lobby) -> Option<LobbyId> {
    |l: Lobby| if has_member(l.members@, id) { Some(l.id) } else { None }
}

impl Default for LobbyManager {
    /// No lobbies.
    fn default() -> (r: Self)
        ensures
            r.lobbies().len() == 0,
    {
        LobbyManager::new()
    }
}

} // verus!
