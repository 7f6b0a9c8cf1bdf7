//! Friends, clans, recently-played-with lists and game invites, kept in
//! memory.
use vstd::prelude::*;

verus! {

/// Relationship between the local user and another user.
#[derive(Debug, Clone, Copy, PartialEq, Eq, Structural)]
pub enum FriendRelationship {
    NoRelationship,
    Blocked,
    RequestRecipient,
    Friend,
    RequestInitiator,
    Ignored,
    IgnoredFriend,
}

/// Online status.
#[derive(Debug, Clone, Copy, PartialEq, Eq, Structural)]
pub enum PersonaState {
    Offline,
    Online,
    Busy,
    Away,
    Snooze,
    LookingToTrade,
    LookingToPlay,
    Invisible,
}

impl PersonaState {
    /// Online in any way other than offline or invisible.
    pub open spec fn spec_is_online(self) -> bool {
        !(self == PersonaState::Offline || self == PersonaState::Invisible)
    }

    /// Whether the user counts as online.
    pub fn is_online(&self) -> (r: bool)
        ensures
            r == self.spec_is_online(),
    {
        !matches!(self, PersonaState::Offline | PersonaState::Invisible)
    }
}

/// Friend-list filter bits.
#[derive(Debug, Clone, Copy, PartialEq, Eq, Structural)]
pub struct FriendFlags(pub u16);

impl FriendFlags {
    pub const NONE: u16 = 0x00;
    pub const BLOCKED: u16 = 0x01;
    pub const FRIENDSHIP_REQUESTED: u16 = 0x02;
    pub const IMMEDIATE: u16 = 0x04;
    pub const CLAN_MEMBER: u16 = 0x08;
    pub const ON_GAME_SERVER: u16 = 0x10;
    pub const REQUEST_INITIATOR: u16 = 0x40;
    pub const IGNORED: u16 = 0x80;
    pub const IGNORED_FRIEND: u16 = 0x100;
    pub const ALL: u16 = 0xFFFF;
}

/// Where a friend is playing.
#[derive(Debug, Clone, Copy, PartialEq, Eq, Structural)]
pub struct FriendGameInfo {
    pub app_id: u32,
    pub game_ip: u32,
    pub game_port: u16,
    pub query_port: u16,
    pub lobby_id: u64,
}

impl FriendGameInfo {
    /// Not in a game.
    pub fn new() -> (r: Self)
        ensures
            r.app_id == 0 && r.game_ip == 0 && r.game_port == 0 && r.query_port == 0 && r.lobby_id == 0,
    {
        FriendGameInfo { app_id: 0, game_ip: 0, game_port: 0, query_port: 0, lobby_id: 0 }
    }
}

/// A friend of the local user.
#[derive(Debug, Clone)]
pub struct Friend {
    pub steam_id: u64,
    pub persona_name: String,
    pub persona_state: PersonaState,
    pub relationship: FriendRelationship,
    pub game_info: FriendGameInfo,
    pub rich_presence: Vec<(String, String)>,
}

impl Friend {
    /// A confirmed, offline friend who is not in a game.
    pub fn new(steam_id: u64, name: &str) -> (r: Self)
        ensures
            r.steam_id == steam_id,
            r.persona_name@ == name@,
            r.persona_state == PersonaState::Offline,
            r.relationship == FriendRelationship::Friend,
            r.game_info.app_id == 0,
            r.rich_presence@.len() == 0,
    {
        Friend {
            steam_id,
            persona_name: name.to_owned(),
            persona_state: PersonaState::Offline,
            relationship: FriendRelationship::Friend,
            game_info: FriendGameInfo::new(),
            rich_presence: Vec::new(),
        }
    }

    /// Whether the friend is in some game.
    pub fn is_in_game(&self) -> (r: bool)
        ensures
            r == (self.game_info.app_id != 0),
    {
        self.game_info.app_id != 0
    }

    /// Whether the friend plays `app_id`.
    pub fn is_playing_game(&self, app_id: u32) -> (r: bool)
        ensures
            r == (self.game_info.app_id == app_id),
    {
        self.game_info.app_id == app_id
    }
}

/// A group the local user belongs to.
#[derive(Debug, Clone)]
pub struct Clan {
    pub clan_id: u64,
    pub name: String,
    pub tag: String,
    pub officer_count: usize,
    pub online_count: u32,
    pub in_game_count: u32,
    pub chatting_count: u32,
}

impl Clan {
    /// A clan with no recorded activity.
    pub fn new(clan_id: u64, name: &str, tag: &str) -> (r: Self)
        ensures
            r.clan_id == clan_id,
            r.name@ == name@,
            r.tag@ == tag@,
            r.officer_count == 0 && r.online_count == 0 && r.in_game_count == 0 && r.chatting_count == 0,
    {
        Clan {
            clan_id,
            name: name.to_owned(),
            tag: tag.to_owned(),
            officer_count: 0,
            online_count: 0,
            in_game_count: 0,
            chatting_count: 0,
        }
    }
}

/// Someone recently played with.
#[derive(Debug, Clone, Copy)]
pub struct CoplayFriend {
    pub steam_id: u64,
    pub time: u64,
    pub app_id: u32,
}

/// Outcome of a game invite.
#[derive(Debug, Clone, Copy, PartialEq, Eq, Structural)]
pub enum InviteResult {
    Sent,
    NotFriend,
    Blocked,
    Offline,
    RateLimited,
    Failed,
}

/// Seconds that must pass between two invites to the same user.
pub const INVITE_COOLDOWN_SECS: u64 = 60;

/// Index of the first friend with id `id` at or after `i`, or -1.
pub open spec fn friend_at(s: Seq<Friend>, id: u64, i: int) -> int
    decreases s.len() - i,
{
    if i < 0 || i >= s.len() {
        -1
    } else if s[i].steam_id == id {
        i
    } else {
        friend_at(s, id, i + 1)
    }
}

/// Index of the first clan with id `id` at or after `i`, or -1.
pub open spec fn clan_at(s: Seq<Clan>, id: u64, i: int) -> int
    decreases s.len() - i,
{
    if i < 0 || i >= s.len() {
        -1
    } else if s[i].clan_id == id {
        i
    } else {
        clan_at(s, id, i + 1)
    }
}

/// Index of the first pair with key `k` at or after `i`, or -1.
pub open spec fn pair_at(s: Seq<(String, String)>, k: Seq<char>, i: int) -> int
    decreases s.len() - i,
{
    if i < 0 || i >= s.len() {
        -1
    } else if s[i].0@ == k {
        i
    } else {
        pair_at(s, k, i + 1)
    }
}

/// Index of the first stamp for `id` at or after `i`, or -1.
pub open spec fn stamp_at(s: Seq<(u64, u64)>, id: u64, i: int) -> int
    decreases s.len() - i,
{
    if i < 0 || i >= s.len() {
        -1
    } else if s[i].0 == id {
        i
    } else {
        stamp_at(s, id, i + 1)
    }
}

/// Whether a friend with relationship `rel` passes the filter `flags`.
pub open spec fn matches_flags_spec(rel: FriendRelationship, flags: u16) -> bool {
    (flags & 0x04 != 0 && rel == FriendRelationship::Friend)
    || (flags & 0x01 != 0 && rel == FriendRelationship::Blocked)
    || (flags & 0x02 != 0 && rel == FriendRelationship::RequestRecipient)
    || (flags & 0x40 != 0 && rel == FriendRelationship::RequestInitiator)
    || (flags & 0x80 != 0 && rel == FriendRelationship::Ignored)
}

/// Number of friends among `s` that pass the filter.
pub open spec fn count_matching(s: Seq<Friend>, flags: u16) -> nat
    decreases s.len(),
{
    if s.len() == 0 {
        0
    } else {
        count_matching(s.drop_last(), flags) + if matches_flags_spec(s.last().relationship, flags) {
            1nat
        } else {
            0nat
        }
    }
}

/// Friends, clans and invites of one local user.
pub struct FriendsManager {
    local_user: u64,
    friends: Vec<Friend>,
    clans: Vec<Clan>,
    coplay: Vec<CoplayFriend>,
    invite_timestamps: Vec<(u64, u64)>,
    app_id: u32,
}

impl FriendsManager {
    /// The friends, in the order they were first added.
    pub closed spec fn friends(&self) -> Seq<Friend> {
        self.friends@
    }

    /// The clans, in the order they were added.
    pub closed spec fn clans(&self) -> Seq<Clan> {
        self.clans@
    }

    /// The recently-played-with list, in the order it was added.
    pub closed spec fn coplay(&self) -> Seq<CoplayFriend> {
        self.coplay@
    }

    /// When each user was last invited.
    pub closed spec fn invites(&self) -> Seq<(u64, u64)> {
        self.invite_timestamps@
    }

    /// The friend record for `id`, if any.
    pub open spec fn friend_of(&self, id: u64) -> Option<Friend> {
        let i = friend_at(self.friends(), id, 0);
        if i < 0 { None } else { Some(self.friends()[i]) }
    }

    /// The clan record for `id`, if any.
    pub open spec fn clan_of(&self, id: u64) -> Option<Clan> {
        let i = clan_at(self.clans(), id, 0);
        if i < 0 { None } else { Some(self.clans()[i]) }
    }

    /// An empty manager for `local_user` playing `app_id`.
    pub fn new(local_user: u64, app_id: u32) -> (r: Self)
        ensures
            r.friends().len() == 0,
            r.clans().len() == 0,
            r.coplay().len() == 0,
            r.invites().len() == 0,
    {
        FriendsManager {
            local_user,
            friends: Vec::new(),
            clans: Vec::new(),
            coplay: Vec::new(),
            invite_timestamps: Vec::new(),
            app_id,
        }
    }

    fn find_friend(&self, id: u64) -> (r: Option<usize>)
        ensures
            match r {
                Some(i) => i as int == friend_at(self.friends(), id, 0) && i < self.friends().len(),
                None => friend_at(self.friends(), id, 0) == -1,
            },
    {
        let mut i: usize = 0;
        while i < self.friends.len()
            invariant
                i <= self.friends@.len(),
                friend_at(self.friends@, id, i as int) == friend_at(self.friends@, id, 0),
            decreases self.friends@.len() - i,
        {
            if self.friends[i].steam_id == id {
                return Some(i);
            }
            i = i + 1;
        }
        None
    }

    fn find_clan(&self, id: u64) -> (r: Option<usize>)
        ensures
            match r {
                Some(i) => i as int == clan_at(self.clans(), id, 0) && i < self.clans().len(),
                None => clan_at(self.clans(), id, 0) == -1,
            },
    {
        let mut i: usize = 0;
        while i < self.clans.len()
            invariant
                i <= self.clans@.len(),
                clan_at(self.clans@, id, i as int) == clan_at(self.clans@, id, 0),
            decreases self.clans@.len() - i,
        {
            if self.clans[i].clan_id == id {
                return Some(i);
            }
            i = i + 1;
        }
        None
    }

    /// Whether `friend` passes the filter `flags`.
    pub fn matches_flags(&self, friend: &Friend, flags: u16) -> (r: bool)
        ensures
            r == matches_flags_spec(friend.relationship, flags),
    {
        (flags & 0x04 != 0 && friend.relationship == FriendRelationship::Friend)
        || (flags & 0x01 != 0 && friend.relationship == FriendRelationship::Blocked)
        || (flags & 0x02 != 0 && friend.relationship == FriendRelationship::RequestRecipient)
        || (flags & 0x40 != 0 && friend.relationship == FriendRelationship::RequestInitiator)
        || (flags & 0x80 != 0 && friend.relationship == FriendRelationship::Ignored)
    }

    /// Number of friends: all of them for no filter or every flag,
    /// otherwise those that pass the filter.
    pub fn get_friend_count(&self, flags: u16) -> (r: usize)
        ensures
            flags == FriendFlags::NONE || flags == FriendFlags::ALL ==> r == self.friends().len(),
            !(flags == FriendFlags::NONE || flags == FriendFlags::ALL) ==> r == count_matching(self.friends(), flags),
    {
        if flags == FriendFlags::NONE || flags == FriendFlags::ALL {
            return self.friends.len();
        }
        let mut n: usize = 0;
        let mut i: usize = 0;
        while i < self.friends.len()
            invariant
                i <= self.friends@.len(),
                n == count_matching(self.friends@.take(i as int), flags),
                n <= i,
            decreases self.friends@.len() - i,
        {
            assert(self.friends@.take(i as int + 1).drop_last() =~= self.friends@.take(i as int));
            if self.matches_flags(&self.friends[i], flags) {
                n = n + 1;
            }
            i = i + 1;
        }
        assert(self.friends@.take(self.friends@.len() as int) =~= self.friends@);
        n
    }

    /// The id of the friend at `index` in list order.
    pub fn get_friend_by_index(&self, index: usize, flags: u16) -> (r: Option<u64>)
        ensures
            index < self.friends().len() ==> r == Some(self.friends()[index as int].steam_id),
            index >= self.friends().len() ==> r is None,
    {
        if index < self.friends.len() {
            Some(self.friends[index].steam_id)
        } else {
            None
        }
    }

    /// Relationship with `steam_id`; `NoRelationship` for a stranger.
    pub fn get_friend_relationship(&self, steam_id: u64) -> (r: FriendRelationship)
        ensures
            r == match self.friend_of(steam_id) {
                Some(f) => f.relationship,
                None => FriendRelationship::NoRelationship,
            },
    {
        match self.find_friend(steam_id) {
            Some(i) => self.friends[i].relationship,
            None => FriendRelationship::NoRelationship,
        }
    }

    /// Display name of friend `steam_id`.
    pub fn get_friend_persona_name(&self, steam_id: u64) -> (r: Option<&str>)
        ensures
            match self.friend_of(steam_id) {
                Some(f) => r matches Some(n) && n@ == f.persona_name@,
                None => r is None,
            },
    {
        match self.find_friend(steam_id) {
            Some(i) => Some(self.friends[i].persona_name.as_str()),
            None => None,
        }
    }

    /// Online status of `steam_id`; offline for a stranger.
    pub fn get_friend_persona_state(&self, steam_id: u64) -> (r: PersonaState)
        ensures
            r == match self.friend_of(steam_id) {
                Some(f) => f.persona_state,
                None => PersonaState::Offline,
            },
    {
        match self.find_friend(steam_id) {
            Some(i) => self.friends[i].persona_state,
            None => PersonaState::Offline,
        }
    }

    /// Game information of friend `steam_id`.
    pub fn get_friend_game_played(&self, steam_id: u64) -> (r: Option<&FriendGameInfo>)
        ensures
            match self.friend_of(steam_id) {
                Some(f) => r == Some(&f.game_info),
                None => r is None,
            },
    {
        match self.find_friend(steam_id) {
            Some(i) => Some(&self.friends[i].game_info),
            None => None,
        }
    }

    /// Rich-presence value `key` of friend `steam_id`.
    pub fn get_friend_rich_presence(&self, steam_id: u64, key: &str) -> (r: Option<&str>)
        ensures
            match self.friend_of(steam_id) {
                Some(f) => {
                    let j = pair_at(f.rich_presence@, key@, 0);
                    if j < 0 { r is None } else { r matches Some(v) && v@ == f.rich_presence@[j].1@ }
                },
                None => r is None,
            },
    {
        match self.find_friend(steam_id) {
            Some(i) => {
                let f = &self.friends[i];
                let k = key.to_owned();
                let mut j: usize = 0;
                while j < f.rich_presence.len()
                    invariant
                        j <= f.rich_presence@.len(),
                        k@ == key@,
                        i as int == friend_at(self.friends@, steam_id, 0),
                        i < self.friends@.len(),
                        *f == self.friends@[i as int],
                        pair_at(f.rich_presence@, key@, j as int) == pair_at(f.rich_presence@, key@, 0),
                    decreases f.rich_presence@.len() - j,
                {
                    if f.rich_presence[j].0 == k {
                        return Some(f.rich_presence[j].1.as_str());
                    }
                    j = j + 1;
                }
                None
            },
            None => None,
        }
    }

    /// Invites `steam_id` to the game now; see `invite_user_to_game_at`.
    pub fn invite_user_to_game(&mut self, steam_id: u64, connect_string: &str) -> (r: InviteResult)
        ensures
            final(self).friends() == old(self).friends(),
            match old(self).friend_of(steam_id) {
                None => r == InviteResult::NotFriend,
                Some(f) => if f.relationship == FriendRelationship::Blocked {
                    r == InviteResult::Blocked
                } else if f.relationship != FriendRelationship::Friend {
                    r == InviteResult::NotFriend
                } else if f.persona_state == PersonaState::Offline {
                    r == InviteResult::Offline
                } else {
                    r == InviteResult::Sent || r == InviteResult::RateLimited
                },
            },
    {
        let now = crate::clock::unix_now_secs();
        self.invite_user_to_game_at(steam_id, connect_string, now)
    }

    /// Invites `steam_id` to the game at time `now` (seconds). Strangers and
    /// non-friends get `NotFriend`, blocked users `Blocked`, offline friends
    /// `Offline`, and a second invite within the cooldown `RateLimited`; an
    /// accepted invite records `now` for the user.
    pub fn invite_user_to_game_at(&mut self, steam_id: u64, connect_string: &str, now: u64) -> (r: InviteResult)
        ensures
            final(self).friends() == old(self).friends(),
            final(self).clans() == old(self).clans(),
            final(self).coplay() == old(self).coplay(),
            ({
                let last = stamp_at(old(self).invites(), steam_id, 0);
                r == match old(self).friend_of(steam_id) {
                    None => InviteResult::NotFriend,
                    Some(f) => if f.relationship == FriendRelationship::Blocked {
                        InviteResult::Blocked
                    } else if f.relationship != FriendRelationship::Friend {
                        InviteResult::NotFriend
                    } else if f.persona_state == PersonaState::Offline {
                        InviteResult::Offline
                    } else if last >= 0 && now >= old(self).invites()[last].1
                        && now - old(self).invites()[last].1 < INVITE_COOLDOWN_SECS {
                        InviteResult::RateLimited
                    } else {
                        InviteResult::Sent
                    },
                }
            }),
            r == InviteResult::Sent ==> ({
                let last = stamp_at(old(self).invites(), steam_id, 0);
                if last < 0 {
                    final(self).invites() == old(self).invites().push((steam_id, now))
                } else {
                    final(self).invites() == old(self).invites().update(last, (steam_id, now))
                }
            }),
            r != InviteResult::Sent ==> final(self).invites() == old(self).invites(),
    {
        let i = match self.find_friend(steam_id) {
            Some(i) => i,
            None => return InviteResult::NotFriend,
        };
        let rel = self.friends[i].relationship;
        if rel == FriendRelationship::Blocked {
            return InviteResult::Blocked;
        }
        if rel != FriendRelationship::Friend {
            return InviteResult::NotFriend;
        }
        if self.friends[i].persona_state == PersonaState::Offline {
            return InviteResult::Offline;
        }
        let mut j: usize = 0;
        while j < self.invite_timestamps.len()
            invariant
                j <= self.invite_timestamps@.len(),
                self.invite_timestamps == old(self).invite_timestamps,
                self.friends == old(self).friends,
                self.clans == old(self).clans,
                self.coplay == old(self).coplay,
                i as int == friend_at(self.friends@, steam_id, 0),
                i < self.friends@.len(),
                rel == self.friends@[i as int].relationship,
                rel == FriendRelationship::Friend,
                self.friends@[i as int].persona_state != PersonaState::Offline,
                stamp_at(self.invite_timestamps@, steam_id, j as int) == stamp_at(self.invite_timestamps@, steam_id, 0),
            decreases self.invite_timestamps@.len() - j,
        {
            if self.invite_timestamps[j].0 == steam_id {
                let last = self.invite_timestamps[j].1;
                if now >= last && now - last < INVITE_COOLDOWN_SECS {
                    return InviteResult::RateLimited;
                }
                self.invite_timestamps[j] = (steam_id, now);
                return InviteResult::Sent;
            }
            j = j + 1;
        }
        self.invite_timestamps.push((steam_id, now));
        InviteResult::Sent
    }

    /// Number of clans.
    pub fn get_clan_count(&self) -> (r: usize)
        ensures
            r == self.clans().len(),
    {
        self.clans.len()
    }

    /// The id of the clan at `index`.
    pub fn get_clan_by_index(&self, index: usize) -> (r: Option<u64>)
        ensures
            index < self.clans().len() ==> r == Some(self.clans()[index as int].clan_id),
            index >= self.clans().len() ==> r is None,
    {
        if index < self.clans.len() {
            Some(self.clans[index].clan_id)
        } else {
            None
        }
    }

    /// Name of clan `clan_id`.
    pub fn get_clan_name(&self, clan_id: u64) -> (r: Option<&str>)
        ensures
            match self.clan_of(clan_id) {
                Some(c) => r matches Some(n) && n@ == c.name@,
                None => r is None,
            },
    {
        match self.find_clan(clan_id) {
            Some(i) => Some(self.clans[i].name.as_str()),
            None => None,
        }
    }

    /// Tag of clan `clan_id`.
    pub fn get_clan_tag(&self, clan_id: u64) -> (r: Option<&str>)
        ensures
            match self.clan_of(clan_id) {
                Some(c) => r matches Some(n) && n@ == c.tag@,
                None => r is None,
            },
    {
        match self.find_clan(clan_id) {
            Some(i) => Some(self.clans[i].tag.as_str()),
            None => None,
        }
    }

    /// Officer count of clan `clan_id`; 0 for an unknown clan.
    pub fn get_clan_officer_count(&self, clan_id: u64) -> (r: usize)
        ensures
            r == match self.clan_of(clan_id) {
                Some(c) => c.officer_count,
                None => 0,
            },
    {
        match self.find_clan(clan_id) {
            Some(i) => self.clans[i].officer_count,
            None => 0,
        }
    }

    /// Online, in-game and chatting member counts of clan `clan_id`.
    pub fn get_clan_activity_counts(&self, clan_id: u64) -> (r: Option<(u32, u32, u32)>)
        ensures
            r == match self.clan_of(clan_id) {
                Some(c) => Some((c.online_count, c.in_game_count, c.chatting_count)),
                None => None,
            },
    {
        match self.find_clan(clan_id) {
            Some(i) => Some((self.clans[i].online_count, self.clans[i].in_game_count, self.clans[i].chatting_count)),
            None => None,
        }
    }

    /// Number of users recently played with.
    pub fn get_coplay_friend_count(&self) -> (r: usize)
        ensures
            r == self.coplay().len(),
    {
        self.coplay.len()
    }

    /// The recently-played-with entry at `index`.
    pub fn get_coplay_friend(&self, index: usize) -> (r: Option<&CoplayFriend>)
        ensures
            index < self.coplay().len() ==> r == Some(&self.coplay()[index as int]),
            index >= self.coplay().len() ==> r is None,
    {
        if index < self.coplay.len() {
            Some(&self.coplay[index])
        } else {
            None
        }
    }

    /// Adds `friend`, replacing an earlier record with the same id.
    pub fn add_friend(&mut self, friend: Friend)
        ensures
            ({
                let i = friend_at(old(self).friends(), friend.steam_id, 0);
                if i < 0 {
                    final(self).friends() == old(self).friends().push(friend)
                } else {
                    final(self).friends() == old(self).friends().update(i, friend)
                }
            }),
            final(self).clans() == old(self).clans(),
            final(self).coplay() == old(self).coplay(),
            final(self).invites() == old(self).invites(),
    {
        match self.find_friend(friend.steam_id) {
            Some(i) => {
                self.friends[i] = friend;
            },
            None => {
                self.friends.push(friend);
            },
        }
    }

    /// Adds a clan.
    pub fn add_clan(&mut self, clan: Clan)
        ensures
            final(self).clans() == old(self).clans().push(clan),
            final(self).friends() == old(self).friends(),
            final(self).coplay() == old(self).coplay(),
            final(self).invites() == old(self).invites(),
    {
        self.clans.push(clan);
    }

    /// Adds a recently-played-with entry.
    pub fn add_coplay(&mut self, coplay: CoplayFriend)
        ensures
            final(self).coplay() == old(self).coplay().push(coplay),
            final(self).friends() == old(self).friends(),
            final(self).clans() == old(self).clans(),
            final(self).invites() == old(self).invites(),
    {
        self.coplay.push(coplay);
    }

    /// Sets the online status of friend `steam_id`; nothing for a stranger.
    pub fn set_friend_state(&mut self, steam_id: u64, state: PersonaState)
        ensures
            ({
                let i = friend_at(old(self).friends(), steam_id, 0);
                &&& i < 0 ==> final(self).friends() == old(self).friends()
                &&& i >= 0 ==> final(self).friends() == old(self).friends().update(i, Friend {
                    persona_state: state,
                    ..old(self).friends()[i]
                })
            }),
            final(self).clans() == old(self).clans(),
            final(self).coplay() == old(self).coplay(),
    {
        if let Some(i) = self.find_friend(steam_id) {
            let mut f = self.friends.remove(i);
            f.persona_state = state;
            self.friends.insert(i, f);
            assert(self.friends@ =~= old(self).friends@.update(i as int, f));
        }
    }

    /// Sets the game that friend `steam_id` plays; nothing for a stranger.
    pub fn set_friend_game(&mut self, steam_id: u64, app_id: u32)
        ensures
            ({
                let i = friend_at(old(self).friends(), steam_id, 0);
                &&& i < 0 ==> final(self).friends() == old(self).friends()
                &&& i >= 0 ==> final(self).friends() == old(self).friends().update(i, Friend {
                    game_info: FriendGameInfo { app_id, ..old(self).friends()[i].game_info },
                    ..old(self).friends()[i]
                })
            }),
            final(self).clans() == old(self).clans(),
            final(self).coplay() == old(self).coplay(),
    {
        if let Some(i) = self.find_friend(steam_id) {
            let mut f = self.friends.remove(i);
            f.game_info.app_id = app_id;
            self.friends.insert(i, f);
            assert(self.friends@ =~= old(self).friends@.update(i as int, f));
        }
    }

    /// Sets rich-presence `key` of friend `steam_id` to `value`, replacing
    /// an earlier value; nothing for a stranger.
    pub fn set_friend_rich_presence(&mut self, steam_id: u64, key: &str, value: &str)
        ensures
            ({
                let i = friend_at(old(self).friends(), steam_id, 0);
                &&& i < 0 ==> final(self).friends() == old(self).friends()
                &&& i >= 0 ==> final(self).friends().len() == old(self).friends().len()
                    && (forall|m: int| 0 <= m < old(self).friends().len() && m != i
                        ==> final(self).friends()[m] == old(self).friends()[m])
                    && ({
                        let (o, f) = (old(self).friends()[i], final(self).friends()[i]);
                        let j = pair_at(o.rich_presence@, key@, 0);
                        &&& f.steam_id == o.steam_id && f.persona_name == o.persona_name
                        &&& f.persona_state == o.persona_state && f.relationship == o.relationship
                        &&& f.game_info == o.game_info
                        &&& j < 0 ==> pairs_view(f.rich_presence@) == pairs_view(o.rich_presence@).push((key@, value@))
                        &&& j >= 0 ==> pairs_view(f.rich_presence@) == pairs_view(o.rich_presence@).update(j, (key@, value@))
                    })
            }),
            final(self).clans() == old(self).clans(),
            final(self).coplay() == old(self).coplay(),
    {
        if let Some(i) = self.find_friend(steam_id) {
            let mut f = self.friends.remove(i);
            let k = key.to_owned();
            let ghost rp = f.rich_presence@;
            if let Some(j) = find_pair(&f.rich_presence, &k) {
                f.rich_presence[j] = (k, value.to_owned());
                assert(pairs_view(f.rich_presence@) =~= pairs_view(rp).update(j as int, (key@, value@)));
            } else {
                f.rich_presence.push((k, value.to_owned()));
                assert(pairs_view(f.rich_presence@) =~= pairs_view(rp).push((key@, value@)));
            }
            let ghost fv = f;
            self.friends.insert(i, f);
            assert(self.friends@ =~= old(self).friends@.update(i as int, fv));
        }
    }

    /// Blocks friend `steam_id`; nothing for a stranger.
    pub fn block_user(&mut self, steam_id: u64)
        ensures
            ({
                let i = friend_at(old(self).friends(), steam_id, 0);
                &&& i < 0 ==> final(self).friends() == old(self).friends()
                &&& i >= 0 ==> final(self).friends() == old(self).friends().update(i, Friend {
                    relationship: FriendRelationship::Blocked,
                    ..old(self).friends()[i]
                })
            }),
            final(self).clans() == old(self).clans(),
            final(self).coplay() == old(self).coplay(),
    {
        if let Some(i) = self.find_friend(steam_id) {
            let mut f = self.friends.remove(i);
            f.relationship = FriendRelationship::Blocked;
            self.friends.insert(i, f);
            assert(self.friends@ =~= old(self).friends@.update(i as int, f));
        }
    }

    /// Makes blocked user `steam_id` a friend again; nothing for a stranger.
    pub fn unblock_user(&mut self, steam_id: u64)
        ensures
            ({
                let i = friend_at(old(self).friends(), steam_id, 0);
                &&& i < 0 ==> final(self).friends() == old(self).friends()
                &&& i >= 0 ==> final(self).friends() == old(self).friends().update(i, Friend {
                    relationship: FriendRelationship::Friend,
                    ..old(self).friends()[i]
                })
            }),
            final(self).clans() == old(self).clans(),
            final(self).coplay() == old(self).coplay(),
    {
        if let Some(i) = self.find_friend(steam_id) {
            let mut f = self.friends.remove(i);
            f.relationship = FriendRelationship::Friend;
            self.friends.insert(i, f);
            assert(self.friends@ =~= old(self).friends@.update(i as int, f));
        }
    }
}

fn find_pair(v: &Vec<(String, String)>, key: &String) -> (r: Option<usize>)
    ensures
        match r {
            Some(j) => j as int == pair_at(v@, key@, 0) && j < v@.len(),
            None => pair_at(v@, key@, 0) == -1,
        },
{
    let mut j: usize = 0;
    while j < v.len()
        invariant
            j <= v@.len(),
            pair_at(v@, key@, j as int) == pair_at(v@, key@, 0),
        decreases v@.len() - j,
    {
        if v[j].0 == *key {
            return Some(j);
        }
        j = j + 1;
    }
    None
}

/// Key-value pairs as values.
pub open spec fn pairs_view(s: Seq<(String, String)>) -> Seq<(Seq<char>, Seq<char>)> {
    s.map_values(|p: (String, String)| (p.0@, p.1@))
}

} // verus!
