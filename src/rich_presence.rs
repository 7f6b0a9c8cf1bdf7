//! Rich presence: key-value status strings of the local user and of
//! friends, with limits and an update rate limiter, kept in memory.
use std::time::{Duration, Instant};
use vstd::prelude::*;

use crate::keyed::{find_str, first_index, set_str, str_key_is, str_lookup};
use crate::clock::{duration_nanos, duration_new, elapsed_nanos, remaining, secs};
use crate::steam_id::SteamId;
use crate::text::{decimal, push_decimal, string_from};

verus! {

/// Relies on `Duration`'s `Clone`: `Duration` is `Copy`, so a clone is the same value.
pub assume_specification[ <core::time::Duration as Clone>::clone ](d: &core::time::Duration) -> (r: core::time::Duration)
    ensures
        r == *d,
;

/// Most keys one user may set.
pub const MAX_RICH_PRESENCE_KEYS: usize = 20;

/// Longest key, in bytes.
pub const MAX_KEY_LENGTH: usize = 64;

/// Longest value, in bytes.
pub const MAX_VALUE_LENGTH: usize = 256;

/// The status line.
pub const KEY_STATUS: &'static str = "status";

/// How to join the user's game.
pub const KEY_CONNECT: &'static str = "connect";

/// Localised display token.
pub const KEY_STEAM_DISPLAY: &'static str = "steam_display";

/// Group the user plays in.
pub const KEY_STEAM_PLAYER_GROUP: &'static str = "steam_player_group";

/// Size of that group.
pub const KEY_STEAM_PLAYER_GROUP_SIZE: &'static str = "steam_player_group_size";

/// Why a value was refused.
#[derive(Debug, Clone, Copy, PartialEq, Eq, Structural)]
pub enum RichPresenceError {
    KeyTooLong,
    ValueTooLong,
    TooManyKeys,
    InvalidKey,
    NotFound,
}

/// One user's key-value presence.
#[derive(Debug, Clone)]
pub struct RichPresenceData {
    data: Vec<(String, String)>,
    last_update: Option<Instant>,
}

impl RichPresenceData {
    /// The pairs, in first-set order.
    pub closed spec fn pairs(&self) -> Seq<(String, String)> {
        self.data@
    }

    /// The value of key `k`.
    pub open spec fn value_of(&self, k: Seq<char>) -> Option<Seq<char>> {
        match str_lookup(self.pairs(), k) {
            Some(v) => Some(v@),
            None => None,
        }
    }

    /// No pairs.
    pub fn new() -> (r: Self)
        ensures
            r.pairs().len() == 0,
    {
        RichPresenceData { data: Vec::new(), last_update: None }
    }

    /// Sets `key` to `value`. Refused for a key over 64 bytes, a value over
    /// 256 bytes, or a new key when 20 are set.
    pub fn set(&mut self, key: &str, value: &str) -> (r: Result<(), RichPresenceError>)
        ensures
            key.len() > MAX_KEY_LENGTH ==> r == Err::<(), RichPresenceError>(RichPresenceError::KeyTooLong),
            key.len() <= MAX_KEY_LENGTH && value.len() > MAX_VALUE_LENGTH ==> r == Err::<(), RichPresenceError>(
                RichPresenceError::ValueTooLong,
            ),
            key.len() <= MAX_KEY_LENGTH && value.len() <= MAX_VALUE_LENGTH && old(self).pairs().len() >= MAX_RICH_PRESENCE_KEYS
                && old(self).value_of(key@) is None ==> r == Err::<(), RichPresenceError>(RichPresenceError::TooManyKeys),
            r is Err ==> final(self).pairs() == old(self).pairs(),
            r is Ok ==> final(self).value_of(key@) == Some(value@)
                && forall|k: Seq<char>| k != key@ ==> #[trigger] final(self).value_of(k) == old(self).value_of(k),
            r is Ok <==> (key.len() <= MAX_KEY_LENGTH && value.len() <= MAX_VALUE_LENGTH
                && (old(self).pairs().len() < MAX_RICH_PRESENCE_KEYS || old(self).value_of(key@) is Some)),
            r is Ok ==> final(self).pairs().len() <= MAX_RICH_PRESENCE_KEYS || final(self).pairs().len() == old(self).pairs().len(),
    {
        if key.len() > MAX_KEY_LENGTH {
            return Err(RichPresenceError::KeyTooLong);
        }
        if value.len() > MAX_VALUE_LENGTH {
            return Err(RichPresenceError::ValueTooLong);
        }
        let exists = find_str(&self.data, key).is_some();
        if self.data.len() >= MAX_RICH_PRESENCE_KEYS && !exists {
            return Err(RichPresenceError::TooManyKeys);
        }
        set_str(&mut self.data, key, value.to_owned());
        proof {
            assert forall|k: Seq<char>| k != key@ implies #[trigger] self.value_of(k) == old(self).value_of(k) by {
                assert(str_lookup(self.data@, k) == str_lookup(old(self).data@, k));
            }
        }
        self.last_update = Some(Instant::now());
        Ok(())
    }

    /// The value of `key`.
    pub fn get(&self, key: &str) -> (r: Option<&str>)
        ensures
            match self.value_of(key@) {
                Some(v) => r matches Some(s) && s@ == v,
                None => r is None,
            },
    {
        match find_str(&self.data, key) {
            Some(i) => Some(self.data[i].1.as_str()),
            None => None,
        }
    }

    /// Number of keys set.
    pub fn key_count(&self) -> (r: usize)
        ensures
            r == self.pairs().len(),
    {
        self.data.len()
    }

    /// The key at `index` in first-set order.
    pub fn get_key_by_index(&self, index: usize) -> (r: Option<&str>)
        ensures
            index < self.pairs().len() ==> (r matches Some(s) && s@ == self.pairs()[index as int].0@),
            index >= self.pairs().len() ==> r is None,
    {
        if index < self.data.len() {
            Some(self.data[index].0.as_str())
        } else {
            None
        }
    }

    /// Removes every key.
    pub fn clear(&mut self)
        ensures
            final(self).pairs().len() == 0,
    {
        self.data.clear();
        self.last_update = Some(Instant::now());
    }

    /// No keys set.
    pub fn is_empty(&self) -> (r: bool)
        ensures
            r == (self.pairs().len() == 0),
    {
        self.data.len() == 0
    }

    /// When a key was last set or the data cleared.
    pub fn last_update(&self) -> Option<Instant> {
        self.last_update
    }

    /// The `status` value.
    pub fn status(&self) -> (r: Option<&str>)
        ensures
            match self.value_of(KEY_STATUS@) {
                Some(v) => r matches Some(s) && s@ == v,
                None => r is None,
            },
    {
        self.get(KEY_STATUS)
    }

    /// The `connect` value.
    pub fn connect(&self) -> (r: Option<&str>)
        ensures
            match self.value_of(KEY_CONNECT@) {
                Some(v) => r matches Some(s) && s@ == v,
                None => r is None,
            },
    {
        self.get(KEY_CONNECT)
    }

    /// Sets `status`.
    pub fn set_status(&mut self, status: &str) -> (r: Result<(), RichPresenceError>)
        ensures
            r is Ok ==> final(self).value_of(KEY_STATUS@) == Some(status@),
            r is Err ==> final(self).pairs() == old(self).pairs(),
    {
        proof { reveal_strlit("status"); }
        self.set(KEY_STATUS, status)
    }

    /// Sets `connect`.
    pub fn set_connect(&mut self, connect: &str) -> (r: Result<(), RichPresenceError>)
        ensures
            r is Ok ==> final(self).value_of(KEY_CONNECT@) == Some(connect@),
            r is Err ==> final(self).pairs() == old(self).pairs(),
    {
        proof { reveal_strlit("connect"); }
        self.set(KEY_CONNECT, connect)
    }

    /// Sets the player group and its size (in decimal).
    pub fn set_player_group(&mut self, group_id: &str, group_size: u32) -> (r: Result<(), RichPresenceError>)
        ensures
            r is Ok ==> final(self).value_of(KEY_STEAM_PLAYER_GROUP@) == Some(group_id@)
                && final(self).value_of(KEY_STEAM_PLAYER_GROUP_SIZE@) == Some(decimal(group_size as nat)),
    {
        proof {
            reveal_strlit("steam_player_group");
            reveal_strlit("steam_player_group_size");
        }
        match self.set(KEY_STEAM_PLAYER_GROUP, group_id) {
            Ok(()) => {},
            Err(e) => return Err(e),
        }
        let mut digits: Vec<char> = Vec::new();
        push_decimal(&mut digits, group_size);
        assert(digits@ =~= decimal(group_size as nat));
        let size = string_from(&digits);
        let r = self.set(KEY_STEAM_PLAYER_GROUP_SIZE, size.as_str());
        proof {
            assert(KEY_STEAM_PLAYER_GROUP@ != KEY_STEAM_PLAYER_GROUP_SIZE@) by {
                assert(KEY_STEAM_PLAYER_GROUP@.len() != KEY_STEAM_PLAYER_GROUP_SIZE@.len());
            }
        }
        r
    }
}

impl Default for RichPresenceData {
    /// No pairs.
    fn default() -> (r: Self)
        ensures
            r.pairs().len() == 0,
    {
        RichPresenceData::new()
    }
}

/// Notice that a friend's presence changed.
#[derive(Debug, Clone, Copy)]
pub struct FriendRichPresenceUpdate {
    pub steam_id: SteamId,
    pub app_id: u32,
}

/// Limits how often presence is published.
#[derive(Debug, Clone)]
pub struct RichPresenceRateLimiter {
    last_update: Option<Instant>,
    min_interval: Duration,
}

impl RichPresenceRateLimiter {
    /// Whether an update was ever recorded.
    pub closed spec fn updated(&self) -> bool {
        self.last_update is Some
    }

    /// A limiter that has recorded nothing.
    pub fn new(min_interval: Duration) -> (r: Self)
        ensures
            !r.updated(),
    {
        RichPresenceRateLimiter { last_update: None, min_interval }
    }

    /// Always before the first update; afterwards once the interval has
    /// passed (which depends on the clock).
    pub fn can_update(&self) -> (r: bool)
        ensures
            !self.updated() ==> r,
    {
        match &self.last_update {
            None => true,
            Some(last) => elapsed_nanos(last) >= duration_nanos(self.min_interval),
        }
    }

    /// Records an update now.
    pub fn record_update(&mut self)
        ensures
            final(self).updated(),
    {
        self.last_update = Some(Instant::now());
    }

    /// Time left before the next update is allowed.
    pub fn time_until_allowed(&self) -> Duration {
        match &self.last_update {
            None => duration_new(0, 0),
            Some(last) => remaining(self.min_interval, last),
        }
    }
}

impl Default for RichPresenceRateLimiter {
    /// One update per second.
    fn default() -> (r: Self)
        ensures
            !r.updated(),
    {
        RichPresenceRateLimiter::new(secs(1))
    }
}

/// Local and friends' presence.
pub struct RichPresenceManager {
    local_presence: RichPresenceData,
    friend_presence: Vec<(SteamId, RichPresenceData)>,
    rate_limiter: RichPresenceRateLimiter,
    pending_callbacks: Vec<FriendRichPresenceUpdate>,
}

impl RichPresenceManager {
    /// The local user's presence.
    pub closed spec fn local(&self) -> RichPresenceData {
        self.local_presence
    }

    /// Friends' presence, in first-received order.
    pub closed spec fn friends(&self) -> Seq<(SteamId, RichPresenceData)> {
        self.friend_presence@
    }

    /// Notices not yet drained.
    pub closed spec fn callbacks(&self) -> Seq<FriendRichPresenceUpdate> {
        self.pending_callbacks@
    }

    /// The presence of `friend`.
    pub open spec fn friend_data(&self, friend: SteamId) -> Option<RichPresenceData> {
        let i = first_index(self.friends(), friend_is(friend));
        if i < 0 { None } else { Some(self.friends()[i].1) }
    }

    /// Empty.
    pub fn new() -> (r: Self)
        ensures
            r.local().pairs().len() == 0,
            r.friends().len() == 0,
            r.callbacks().len() == 0,
    {
        RichPresenceManager {
            local_presence: RichPresenceData::new(),
            friend_presence: Vec::new(),
            rate_limiter: RichPresenceRateLimiter::default(),
            pending_callbacks: Vec::new(),
        }
    }

    /// Sets a local key; see `RichPresenceData::set`.
    pub fn set_rich_presence(&mut self, key: &str, value: &str) -> (r: Result<(), RichPresenceError>)
        ensures
            r is Ok ==> final(self).local().value_of(key@) == Some(value@),
            r is Err ==> final(self).local().pairs() == old(self).local().pairs(),
            r is Ok <==> (key.len() <= MAX_KEY_LENGTH && value.len() <= MAX_VALUE_LENGTH
                && (old(self).local().pairs().len() < MAX_RICH_PRESENCE_KEYS || old(self).local().value_of(key@) is Some)),
            final(self).friends() == old(self).friends(),
    {
        self.local_presence.set(key, value)
    }

    /// Clears the local presence.
    pub fn clear_rich_presence(&mut self)
        ensures
            final(self).local().pairs().len() == 0,
            final(self).friends() == old(self).friends(),
    {
        self.local_presence.clear();
    }

    /// A local value.
    pub fn get_local_presence(&self, key: &str) -> (r: Option<&str>)
        ensures
            match self.local().value_of(key@) {
                Some(v) => r matches Some(s) && s@ == v,
                None => r is None,
            },
    {
        self.local_presence.get(key)
    }

    fn find_friend(&self, friend: SteamId) -> (r: Option<usize>)
        ensures
            match r {
                Some(i) => i as int == first_index(self.friends(), friend_is(friend)) && i < self.friends().len(),
                None => first_index(self.friends(), friend_is(friend)) == -1,
            },
    {
        let ghost p = friend_is(friend);
        let mut i: usize = 0;
        while i < self.friend_presence.len()
            invariant
                i <= self.friend_presence@.len(),
                p == friend_is(friend),
                crate::keyed::index_from(self.friend_presence@, p, i as int) == first_index(self.friend_presence@, p),
            decreases self.friend_presence@.len() - i,
        {
            if self.friend_presence[i].0 == friend {
                assert(p(self.friend_presence@[i as int]));
                return Some(i);
            }
            assert(!p(self.friend_presence@[i as int]));
            i = i + 1;
        }
        None
    }

    /// A friend's value.
    pub fn get_friend_rich_presence(&self, friend: SteamId, key: &str) -> (r: Option<&str>)
        ensures
            match self.friend_data(friend) {
                Some(d) => match d.value_of(key@) {
                    Some(v) => r matches Some(s) && s@ == v,
                    None => r is None,
                },
                None => r is None,
            },
    {
        match self.find_friend(friend) {
            Some(i) => self.friend_presence[i].1.get(key),
            None => None,
        }
    }

    /// Number of keys a friend has set; 0 for an unknown friend.
    pub fn get_friend_rich_presence_key_count(&self, friend: SteamId) -> (r: usize)
        ensures
            r == match self.friend_data(friend) {
                Some(d) => d.pairs().len(),
                None => 0,
            },
    {
        match self.find_friend(friend) {
            Some(i) => self.friend_presence[i].1.key_count(),
            None => 0,
        }
    }

    /// A friend's key at `index`.
    pub fn get_friend_rich_presence_key_by_index(&self, friend: SteamId, index: usize) -> (r: Option<&str>)
        ensures
            match self.friend_data(friend) {
                Some(d) => (index < d.pairs().len() ==> (r matches Some(s) && s@ == d.pairs()[index as int].0@))
                    && (index >= d.pairs().len() ==> r is None),
                None => r is None,
            },
    {
        match self.find_friend(friend) {
            Some(i) => self.friend_presence[i].1.get_key_by_index(index),
            None => None,
        }
    }

    /// Stores a friend's presence (replacing earlier data) and queues a notice.
    pub fn update_friend_presence(&mut self, friend: SteamId, app_id: u32, data: RichPresenceData)
        ensures
            final(self).friend_data(friend) == Some(data),
            final(self).callbacks() == old(self).callbacks().push(FriendRichPresenceUpdate { steam_id: friend, app_id }),
            final(self).local() == old(self).local(),
    {
        let ghost s = self.friend_presence@;
        match self.find_friend(friend) {
            Some(i) => {
                self.friend_presence.set(i, (friend, data));
                proof { crate::keyed::lemma_update_first(s, friend_is(friend), i as int, (friend, data)); }
            },
            None => {
                self.friend_presence.push((friend, data));
                proof { crate::keyed::lemma_push_first(s, friend_is(friend), (friend, data)); }
            },
        }
        self.pending_callbacks.push(FriendRichPresenceUpdate { steam_id: friend, app_id });
    }

    /// Takes every queued notice, oldest first.
    pub fn drain_callbacks(&mut self) -> (r: Vec<FriendRichPresenceUpdate>)
        ensures
            r@ == old(self).callbacks(),
            final(self).callbacks().len() == 0,
            final(self).friends() == old(self).friends(),
    {
        let mut out: Vec<FriendRichPresenceUpdate> = Vec::new();
        std::mem::swap(&mut out, &mut self.pending_callbacks);
        out
    }

    /// Whether publishing is allowed now.
    pub fn can_update(&self) -> bool {
        self.rate_limiter.can_update()
    }

    /// Records a publication now.
    pub fn record_update(&mut self) {
        self.rate_limiter.record_update();
    }
}

impl Default for RichPresenceManager {
    /// Empty.
    fn default() -> (r: Self)
        ensures
            r.friends().len() == 0,
    {
        RichPresenceManager::new()
    }
}

/// Whether an entry is for `friend`.
pub open spec fn friend_is(friend: SteamId) -> spec_fn((SteamId, RichPresenceData)) -> bool {
    |e: (SteamId, RichPresenceData)| e.0 == friend
}

} // verus!
