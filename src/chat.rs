//! Text chat: channels, per-player mutes and rate limits, delivery to the
//! right recipients, bounded history and a word filter, kept in memory.
use std::collections::VecDeque;
use std::time::{Duration, Instant};
use vstd::prelude::*;

use crate::keyed::{first_index, index_from};
use crate::matchmaking::{contains_sub, contains_text};
use crate::clock::{instant_checked_add, is_past, remaining, secs, within};
use crate::steam_id::SteamId;
use crate::text::{chars_of, string_from};
use vstd::utf8::encode_utf8;

verus! {

/// What `str::to_lowercase` makes of a text.
pub uninterp spec fn lower_of(s: Seq<char>) -> Seq<char>;

/// Relies on `str::to_lowercase`: the lowercase form of `s`, a function of
/// its characters alone.
#[verifier::external_body]
fn lowercase(s: &str) -> (r: String)
    ensures
        r@ == lower_of(s@),
{
    s.to_lowercase()
}

/// Where a message goes.
#[derive(Debug, Clone, Copy, PartialEq, Eq, Hash, Structural)]
pub enum ChatChannel {
    Global,
    Team(u8),
    Squad(u32),
    Private(SteamId),
    Console,
    Server,
}

/// Longest message, in bytes.
pub const MAX_MESSAGE_LENGTH: usize = 256;

/// Messages allowed per window.
pub const RATE_LIMIT_MESSAGES: u32 = 5;

/// Length of the rate-limit window, in seconds.
pub const RATE_LIMIT_WINDOW_SECS: u64 = 10;

/// A chat message.
#[derive(Debug, Clone)]
pub struct ChatMessage {
    pub sender: SteamId,
    pub sender_name: String,
    pub channel: ChatChannel,
    pub content: String,
    pub timestamp: u64,
}

impl ChatMessage {
    /// A message with the given parts.
    pub fn new(sender: SteamId, sender_name: &str, channel: ChatChannel, content: &str, timestamp: u64) -> (r: Self)
        ensures
            r.sender == sender && r.sender_name@ == sender_name@ && r.channel == channel,
            r.content@ == content@ && r.timestamp == timestamp,
    {
        ChatMessage {
            sender,
            sender_name: sender_name.to_owned(),
            channel,
            content: content.to_owned(),
            timestamp,
        }
    }

    /// At most `MAX_MESSAGE_LENGTH` bytes.
    pub fn is_valid_length(&self) -> (r: bool)
        ensures
            r == ((encode_utf8(self.content@).len() as usize) <= MAX_MESSAGE_LENGTH),
    {
        self.content.as_str().len() <= MAX_MESSAGE_LENGTH
    }

    /// Cuts the content to whole characters within `MAX_MESSAGE_LENGTH`
    /// bytes; shorter content is kept.
    pub fn truncate(&mut self)
        ensures
            (encode_utf8(old(self).content@).len() as usize) <= MAX_MESSAGE_LENGTH ==> final(self).content@ == old(self).content@,
            final(self).content@.len() <= old(self).content@.len(),
            final(self).content@ == old(self).content@.subrange(0, final(self).content@.len() as int),
            final(self).sender == old(self).sender && final(self).channel == old(self).channel,
    {
        if self.content.as_str().len() <= MAX_MESSAGE_LENGTH {
            return;
        }
        let cs = chars_of(self.content.as_str());
        let mut kept: Vec<char> = Vec::new();
        let mut bytes: usize = 0;
        let mut i: usize = 0;
        while i < cs.len()
            invariant
                i <= cs@.len(),
                kept@ == cs@.subrange(0, i as int),
                bytes <= MAX_MESSAGE_LENGTH,
            decreases cs@.len() - i,
        {
            let c = cs[i];
            let w: usize = if (c as u32) < 0x80 { 1 } else if (c as u32) < 0x800 { 2 } else if (c as u32) < 0x10000 { 3 } else { 4 };
            if bytes + w > MAX_MESSAGE_LENGTH {
                break;
            }
            bytes = bytes + w;
            kept.push(c);
            i = i + 1;
            assert(kept@ =~= cs@.subrange(0, i as int));
        }
        self.content = string_from(&kept);
    }
}

/// Limits how many messages fit in a sliding window.
#[derive(Debug, Clone)]
pub struct RateLimiter {
    history: VecDeque<Instant>,
    max_messages: u32,
    window: Duration,
}

impl RateLimiter {
    /// Messages sent in the window, oldest first (some may have aged out).
    pub closed spec fn sent(&self) -> nat {
        self.history@.len()
    }

    /// The allowance per window.
    pub closed spec fn limit(&self) -> u32 {
        self.max_messages
    }

    /// A limiter that has seen nothing.
    pub fn new(max_messages: u32, window: Duration) -> (r: Self)
        ensures
            r.sent() == 0,
            r.limit() == max_messages,
    {
        RateLimiter { history: VecDeque::new(), max_messages, window }
    }

    fn recent_count(&self) -> (r: usize)
        ensures
            r <= self.history@.len(),
    {
        let mut n: usize = 0;
        let mut i: usize = 0;
        while i < self.history.len()
            invariant
                i <= self.history@.len(),
                n <= i,
            decreases self.history@.len() - i,
        {
            if within(&self.history[i], self.window) {
                n = n + 1;
            }
            i = i + 1;
        }
        n
    }

    /// Fewer than the allowance were sent within the window (by the clock).
    pub fn can_send(&self) -> (r: bool)
        ensures
            self.sent() < self.limit() ==> r,
    {
        (self.recent_count() as u64) < (self.max_messages as u64)
    }

    /// Forgets messages older than the window, then records one now unless
    /// the allowance is used up; reports whether it was recorded.
    pub fn record_message(&mut self) -> (r: bool)
        ensures
            r ==> final(self).sent() <= old(self).sent() + 1 && final(self).sent() <= final(self).limit(),
            old(self).sent() < old(self).limit() ==> r,
            final(self).limit() == old(self).limit(),
    {
        while self.history.len() > 0
            invariant
                self.history@.len() <= old(self).history@.len(),
                self.max_messages == old(self).max_messages,
            decreases self.history@.len(),
        {
            if within(&self.history[0], self.window) {
                break;
            }
            let _ = self.history.pop_front();
        }
        if (self.history.len() as u64) >= (self.max_messages as u64) {
            return false;
        }
        self.history.push_back(Instant::now());
        true
    }

    /// Messages still allowed in the window (by the clock).
    pub fn remaining(&self) -> (r: u32)
        ensures
            r <= self.limit(),
            self.sent() == 0 ==> r == self.limit(),
    {
        let recent = self.recent_count();
        if (recent as u64) >= (self.max_messages as u64) {
            0
        } else {
            self.max_messages - recent as u32
        }
    }

    /// How long until sending is allowed again; `None` when it is now.
    pub fn time_until_allowed(&self) -> (r: Option<Duration>)
        ensures
            self.sent() < self.limit() ==> r is None,
    {
        if self.can_send() {
            return None;
        }
        if self.history.len() == 0 {
            return None;
        }
        Some(remaining(self.window, &self.history[0]))
    }
}

impl Default for RateLimiter {
    /// Five messages per ten seconds.
    fn default() -> (r: Self)
        ensures
            r.sent() == 0,
            r.limit() == RATE_LIMIT_MESSAGES,
    {
        RateLimiter::new(RATE_LIMIT_MESSAGES, secs(RATE_LIMIT_WINDOW_SECS))
    }
}

/// What the server keeps of one player's chat.
#[derive(Debug)]
pub struct PlayerChatState {
    pub steam_id: SteamId,
    pub rate_limiter: RateLimiter,
    pub muted_players: Vec<SteamId>,
    pub server_muted: bool,
    pub mute_expires: Option<Instant>,
    pub team_id: Option<u8>,
    pub squad_id: Option<u32>,
}

impl PlayerChatState {
    /// No mutes, no team or squad, a fresh limiter.
    pub fn new(steam_id: SteamId) -> (r: Self)
        ensures
            r.steam_id == steam_id && r.muted_players@.len() == 0 && !r.server_muted && r.mute_expires is None,
            r.team_id is None && r.squad_id is None,
            r.rate_limiter.sent() == 0 && r.rate_limiter.limit() == RATE_LIMIT_MESSAGES,
    {
        PlayerChatState {
            steam_id,
            rate_limiter: RateLimiter::default(),
            muted_players: Vec::new(),
            server_muted: false,
            mute_expires: None,
            team_id: None,
            squad_id: None,
        }
    }

    /// The player has not muted `sender`.
    pub fn can_receive_from(&self, sender: SteamId) -> (r: bool)
        ensures
            r == !self.muted_players@.contains(sender),
    {
        !contains_id(&self.muted_players, sender)
    }

    /// Not under a standing server mute, and within the rate limit (by the clock).
    pub fn can_send(&self) -> (r: bool)
        ensures
            self.server_muted && self.mute_expires is None ==> !r,
    {
        if self.server_muted {
            match &self.mute_expires {
                Some(expires) => {
                    if !is_past(expires) {
                        return false;
                    }
                },
                None => return false,
            }
        }
        self.rate_limiter.can_send()
    }

    /// Mutes `player` for this player.
    pub fn mute_player(&mut self, player: SteamId)
        ensures
            final(self).muted_players@.contains(player),
            forall|x: SteamId| x != player ==> (final(self).muted_players@.contains(x) <==> old(self).muted_players@.contains(x)),
            final(self).server_muted == old(self).server_muted,
    {
        if !contains_id(&self.muted_players, player) {
            self.muted_players.push(player);
            proof { same_members_after_push(old(self).muted_players@, player); }
        }
    }

    /// Unmutes `player`.
    pub fn unmute_player(&mut self, player: SteamId)
        ensures
            !final(self).muted_players@.contains(player),
            forall|x: SteamId| x != player ==> (final(self).muted_players@.contains(x) <==> old(self).muted_players@.contains(x)),
            final(self).server_muted == old(self).server_muted,
    {
        let mut kept: Vec<SteamId> = Vec::new();
        let mut i: usize = 0;
        while i < self.muted_players.len()
            invariant
                i <= self.muted_players@.len(),
                self.muted_players == old(self).muted_players,
                !kept@.contains(player),
                forall|x: SteamId| x != player ==> (kept@.contains(x) <==> self.muted_players@.take(i as int).contains(x)),
            decreases self.muted_players@.len() - i,
        {
            let x = self.muted_players[i];
            let ghost before = kept@;
            if x != player {
                kept.push(x);
            }
            proof { step_without(self.muted_players@, before, kept@, i as int, player); }
            i = i + 1;
        }
        proof { assert(self.muted_players@.take(self.muted_players@.len() as int) =~= self.muted_players@); }
        self.muted_players = kept;
    }

    /// Mutes the player server-wide, for `duration` or for good (also when
    /// the end of `duration` lies beyond what an instant can hold).
    pub fn server_mute(&mut self, duration: Option<Duration>)
        ensures
            final(self).server_muted,
            duration is None ==> final(self).mute_expires is None,
            final(self).muted_players == old(self).muted_players,
    {
        self.server_muted = true;
        self.mute_expires = match duration {
            Some(d) => instant_checked_add(Instant::now(), d),
            None => None,
        };
    }

    /// Lifts a server mute.
    pub fn server_unmute(&mut self)
        ensures
            !final(self).server_muted && final(self).mute_expires is None,
            final(self).muted_players == old(self).muted_players,
    {
        self.server_muted = false;
        self.mute_expires = None;
    }
}

proof fn same_members_after_push(s: Seq<SteamId>, x: SteamId)
    ensures
        s.push(x).contains(x),
        forall|y: SteamId| y != x ==> (s.push(x).contains(y) <==> s.contains(y)),
{
    assert(s.push(x)[s.len() as int] == x);
    assert forall|y: SteamId| y != x implies (s.push(x).contains(y) <==> s.contains(y)) by {
        if s.push(x).contains(y) {
            let k = choose|k: int| 0 <= k < s.push(x).len() && s.push(x)[k] == y;
            assert(s[k] == y);
        }
        if s.contains(y) {
            let k = choose|k: int| 0 <= k < s.len() && s[k] == y;
            assert(s.push(x)[k] == y);
        }
    }
}

proof fn step_without(t: Seq<SteamId>, before: Seq<SteamId>, after_: Seq<SteamId>, i: int, p: SteamId)
    requires
        0 <= i < t.len(),
        !before.contains(p),
        forall|x: SteamId| x != p ==> (before.contains(x) <==> t.take(i).contains(x)),
        t[i] != p ==> after_ == before.push(t[i]),
        t[i] == p ==> after_ == before,
    ensures
        !after_.contains(p),
        forall|x: SteamId| x != p ==> (after_.contains(x) <==> t.take(i + 1).contains(x)),
{
    let tp = t.take(i);
    let tn = t.take(i + 1);
    assert(tn =~= tp.push(t[i]));
    same_members_after_push(tp, t[i]);
    if t[i] != p {
        same_members_after_push(before, t[i]);
        assert forall|x: SteamId| x != p implies (after_.contains(x) <==> tn.contains(x)) by {
            if x != t[i] {
                assert(before.contains(x) <==> tp.contains(x));
            }
        }
        if after_.contains(p) {
            let k = choose|k: int| 0 <= k < after_.len() && after_[k] == p;
            if k < before.len() {
                assert(before[k] == p);
            }
        }
    } else {
        assert forall|x: SteamId| x != p implies (after_.contains(x) <==> tn.contains(x)) by {
            assert(before.contains(x) <==> tp.contains(x));
        }
    }
}

fn contains_id(v: &Vec<SteamId>, x: SteamId) -> (r: bool)
    ensures
        r == v@.contains(x),
{
    let mut i: usize = 0;
    while i < v.len()
        invariant
            i <= v@.len(),
            forall|k: int| 0 <= k < i ==> v@[k] != x,
        decreases v@.len() - i,
    {
        if v[i] == x {
            assert(v@[i as int] == x);
            return true;
        }
        i = i + 1;
    }
    false
}

/// Outcome of sending a message.
#[derive(Debug, Clone, Copy, PartialEq, Eq, Structural)]
pub enum ChatResult {
    Delivered,
    RateLimited,
    Muted,
    InvalidChannel,
    MessageTooLong,
    SenderNotFound,
    RecipientNotFound,
}

/// Whether player `st` receives a message from `sender` on channel `ch`.
pub open spec fn receives(st: PlayerChatState, sender: SteamId, ch: ChatChannel) -> bool {
    st.steam_id != sender && !st.muted_players@.contains(sender) && match ch {
        ChatChannel::Global | ChatChannel::Server | ChatChannel::Console => true,
        ChatChannel::Team(t) => st.team_id == Some(t),
        ChatChannel::Squad(q) => st.squad_id == Some(q),
        ChatChannel::Private(target) => st.steam_id == target,
    }
}

/// The id of a player who receives the message.
pub open spec fn recipient(sender: SteamId, ch: ChatChannel) -> spec_fn(PlayerChatState) -> Option<SteamId> {
    |st: PlayerChatState| if receives(st, sender, ch) { Some(st.steam_id) } else { None }
}

/// Whether a player record is for `id`.
pub open spec fn chat_player_is(id: SteamId) -> spec_fn(PlayerChatState) -> bool {
    |p: PlayerChatState| p.steam_id == id
}

/// Players, delivery and history.
pub struct ChatManager {
    players: Vec<PlayerChatState>,
    history: VecDeque<ChatMessage>,
    max_history: usize,
    current_tick: u64,
}

impl ChatManager {
    /// The players, in joining order.
    pub closed spec fn players(&self) -> Seq<PlayerChatState> {
        self.players@
    }

    /// The history, oldest first.
    pub closed spec fn spec_history(&self) -> Seq<ChatMessage> {
        self.history@
    }

    /// The history bound.
    pub closed spec fn history_limit(&self) -> usize {
        self.max_history
    }

    /// The tick stamped on new messages.
    pub closed spec fn tick(&self) -> u64 {
        self.current_tick
    }

    /// The record of player `id`.
    pub open spec fn player_of(&self, id: SteamId) -> Option<PlayerChatState> {
        let i = first_index(self.players(), chat_player_is(id));
        if i < 0 { None } else { Some(self.players()[i]) }
    }

    /// No players, no history; keeps at most `max_history` messages.
    pub fn new(max_history: usize) -> (r: Self)
        ensures
            r.players().len() == 0 && r.spec_history().len() == 0,
            r.history_limit() == max_history && r.tick() == 0,
    {
        ChatManager { players: Vec::new(), history: VecDeque::new(), max_history, current_tick: 0 }
    }

    /// Sets the tick stamped on new messages.
    pub fn set_tick(&mut self, tick: u64)
        ensures
            final(self).tick() == tick,
            final(self).players() == old(self).players(),
            final(self).spec_history() == old(self).spec_history(),
            final(self).history_limit() == old(self).history_limit(),
    {
        self.current_tick = tick;
    }

    fn find(&self, id: SteamId) -> (r: Option<usize>)
        ensures
            match r {
                Some(i) => i as int == first_index(self.players@, chat_player_is(id)) && i < self.players@.len(),
                None => first_index(self.players@, chat_player_is(id)) == -1,
            },
    {
        let ghost p = chat_player_is(id);
        let mut i: usize = 0;
        while i < self.players.len()
            invariant
                i <= self.players@.len(),
                p == chat_player_is(id),
                index_from(self.players@, p, i as int) == first_index(self.players@, p),
            decreases self.players@.len() - i,
        {
            if self.players[i].steam_id == id {
                assert(p(self.players@[i as int]));
                return Some(i);
            }
            assert(!p(self.players@[i as int]));
            i = i + 1;
        }
        None
    }

    /// Adds a player with a fresh record, replacing an earlier one.
    pub fn add_player(&mut self, steam_id: SteamId)
        ensures
            final(self).player_of(steam_id) matches Some(p) && p.steam_id == steam_id && p.muted_players@.len() == 0
                && !p.server_muted && p.team_id is None && p.squad_id is None,
            final(self).spec_history() == old(self).spec_history(),
    {
        let st = PlayerChatState::new(steam_id);
        let ghost s0 = self.players@;
        match self.find(steam_id) {
            Some(i) => {
                self.players.set(i, st);
                proof { crate::keyed::lemma_update_first(s0, chat_player_is(steam_id), i as int, st); }
            },
            None => {
                self.players.push(st);
                proof { crate::keyed::lemma_push_first(s0, chat_player_is(steam_id), st); }
            },
        }
    }

    /// Removes a player's record.
    pub fn remove_player(&mut self, steam_id: SteamId)
        ensures
            final(self).players().len() <= old(self).players().len(),
            old(self).player_of(steam_id) is None ==> final(self).players() == old(self).players(),
            final(self).spec_history() == old(self).spec_history(),
    {
        if let Some(i) = self.find(steam_id) {
            let _ = self.players.remove(i);
        }
    }

    /// The record of player `steam_id`.
    pub fn get_player(&self, steam_id: SteamId) -> (r: Option<&PlayerChatState>)
        ensures
            match self.player_of(steam_id) {
                Some(p) => r == Some(&p),
                None => r is None,
            },
    {
        match self.find(steam_id) {
            Some(i) => Some(&self.players[i]),
            None => None,
        }
    }

    /// The record of player `steam_id`, to change it in place.
    pub fn get_player_mut(&mut self, steam_id: SteamId) -> (r: Option<&mut PlayerChatState>)
        ensures
            ({
                let i = first_index(old(self).players(), chat_player_is(steam_id));
                &&& i < 0 ==> r is None && final(self).players() == old(self).players()
                &&& i >= 0 ==> (r matches Some(p) && *p == old(self).players()[i]
                    && final(self).players() == old(self).players().update(i, *final(p)))
            }),
            final(self).spec_history() == old(self).spec_history(),
    {
        match self.find(steam_id) {
            Some(i) => Some(&mut self.players[i]),
            None => None,
        }
    }

    /// Sets a player's team.
    pub fn set_player_team(&mut self, steam_id: SteamId, team_id: Option<u8>)
        ensures
            old(self).player_of(steam_id) is None ==> final(self).players() == old(self).players(),
            old(self).player_of(steam_id) is Some ==> (final(self).player_of(steam_id) matches Some(p) && p.team_id == team_id),
    {
        if let Some(i) = self.find(steam_id) {
            let ghost s0 = self.players@;
            proof { crate::keyed::lemma_found(s0, chat_player_is(steam_id), 0); }
            let mut p = self.players.remove(i);
            p.team_id = team_id;
            let ghost pv = p;
            self.players.insert(i, p);
            proof {
                assert(self.players@ =~= s0.update(i as int, pv));
                crate::keyed::lemma_update_first(s0, chat_player_is(steam_id), i as int, pv);
            }
        }
    }

    /// Sets a player's squad.
    pub fn set_player_squad(&mut self, steam_id: SteamId, squad_id: Option<u32>)
        ensures
            old(self).player_of(steam_id) is None ==> final(self).players() == old(self).players(),
            old(self).player_of(steam_id) is Some ==> (final(self).player_of(steam_id) matches Some(p) && p.squad_id == squad_id),
    {
        if let Some(i) = self.find(steam_id) {
            let ghost s0 = self.players@;
            proof { crate::keyed::lemma_found(s0, chat_player_is(steam_id), 0); }
            let mut p = self.players.remove(i);
            p.squad_id = squad_id;
            let ghost pv = p;
            self.players.insert(i, p);
            proof {
                assert(self.players@ =~= s0.update(i as int, pv));
                crate::keyed::lemma_update_first(s0, chat_player_is(steam_id), i as int, pv);
            }
        }
    }

    fn recipients(&self, sender: SteamId, channel: ChatChannel) -> (r: Vec<SteamId>)
        ensures
            r@ == self.players@.filter_map(recipient(sender, channel)),
    {
        let ghost f = recipient(sender, channel);
        let mut out: Vec<SteamId> = Vec::new();
        let mut i: usize = 0;
        assert(out@ =~= self.players@.take(0).filter_map(f));
        while i < self.players.len()
            invariant
                i <= self.players@.len(),
                f == recipient(sender, channel),
                out@ == self.players@.take(i as int).filter_map(f),
            decreases self.players@.len() - i,
        {
            proof { self.players@.lemma_filter_map_take_succ(f, i as int); }
            let st = &self.players[i];
            let ok = st.steam_id != sender && st.can_receive_from(sender) && match channel {
                ChatChannel::Global | ChatChannel::Server | ChatChannel::Console => true,
                ChatChannel::Team(t) => st.team_id == Some(t),
                ChatChannel::Squad(q) => st.squad_id == Some(q),
                ChatChannel::Private(target) => st.steam_id == target,
            };
            if ok {
                out.push(st.steam_id);
            }
            i = i + 1;
            assert(out@ =~= self.players@.take(i as int).filter_map(f));
        }
        assert(self.players@.take(self.players@.len() as int) =~= self.players@);
        out
    }

    /// Sends a message: refused for an unknown sender, a muted sender, a
    /// sender over the rate limit, or content over 256 bytes. Otherwise the
    /// message joins the history (dropping the oldest beyond the bound) and
    /// the recipients are returned: every other player who has not muted
    /// the sender and is on the channel.
    pub fn send_message(&mut self, sender: SteamId, sender_name: &str, channel: ChatChannel, content: &str) -> (r: Result<Vec<SteamId>, ChatResult>)
        ensures
            old(self).player_of(sender) is None ==> r == Err::<Vec<SteamId>, ChatResult>(ChatResult::SenderNotFound),
            old(self).player_of(sender) matches Some(p) && p.server_muted && p.mute_expires is None
                ==> r == Err::<Vec<SteamId>, ChatResult>(ChatResult::Muted),
            r is Err ==> final(self).spec_history() == old(self).spec_history(),
            final(self).history_limit() == old(self).history_limit(),
            r matches Ok(to) ==> content.len() <= MAX_MESSAGE_LENGTH
                && to@ == final(self).players().filter_map(recipient(sender, channel))
                && (old(self).history_limit() > 0 ==> final(self).spec_history().len() > 0
                    && final(self).spec_history().last().content@ == content@
                    && final(self).spec_history().last().sender == sender),
    {
        let i = match self.find(sender) {
            Some(i) => i,
            None => return Err(ChatResult::SenderNotFound),
        };
        let mut st = self.players.remove(i);
        let mut muted = false;
        if st.server_muted {
            match &st.mute_expires {
                Some(expires) => {
                    if !is_past(expires) {
                        muted = true;
                    } else {
                        st.server_muted = false;
                        st.mute_expires = None;
                    }
                },
                None => {
                    muted = true;
                },
            }
        }
        let allowed = if muted { false } else { st.rate_limiter.record_message() };
        self.players.insert(i, st);
        if muted {
            return Err(ChatResult::Muted);
        }
        if !allowed {
            return Err(ChatResult::RateLimited);
        }
        if content.len() > MAX_MESSAGE_LENGTH {
            return Err(ChatResult::MessageTooLong);
        }
        let message = ChatMessage::new(sender, sender_name, channel, content, self.current_tick);
        let to = self.recipients(sender, channel);
        self.history.push_back(message);
        if self.history.len() > self.max_history {
            let _ = self.history.pop_front();
        }
        Ok(to)
    }

    /// The newest `count` messages, newest first.
    pub fn get_history(&self, count: usize) -> (r: Vec<&ChatMessage>)
        ensures
            r@.len() == if count < self.spec_history().len() { count as nat } else { self.spec_history().len() },
            forall|k: int| 0 <= k < r@.len() ==> *(#[trigger] r@[k]) == self.spec_history()[self.spec_history().len() - 1 - k],
    {
        let n = self.history.len();
        let mut out: Vec<&ChatMessage> = Vec::new();
        let mut k: usize = 0;
        while k < count && k < n
            invariant
                n == self.history@.len(),
                k <= n,
                k <= count,
                out@.len() == k,
                forall|j: int| 0 <= j < k ==> *(#[trigger] out@[j]) == self.history@[n - 1 - j],
            decreases n - k,
        {
            out.push(&self.history[n - 1 - k]);
            k = k + 1;
        }
        out
    }

    /// Forgets the history.
    pub fn clear_history(&mut self)
        ensures
            final(self).spec_history().len() == 0,
            final(self).players() == old(self).players(),
    {
        self.history.clear();
    }

    fn update_player(&mut self, target: SteamId, unmute: bool, duration: Option<Duration>) -> (r: bool)
        ensures
            r == old(self).player_of(target) is Some,
    {
        match self.find(target) {
            Some(i) => {
                let mut p = self.players.remove(i);
                if unmute {
                    p.server_unmute();
                } else {
                    p.server_mute(duration);
                }
                self.players.insert(i, p);
                true
            },
            None => false,
        }
    }

    /// Mutes `target` server-wide; reports whether the player is known.
    pub fn admin_mute(&mut self, target: SteamId, duration: Option<Duration>) -> (r: bool)
        ensures
            r == old(self).player_of(target) is Some,
    {
        self.update_player(target, false, duration)
    }

    /// Lifts a server mute; reports whether the player is known.
    pub fn admin_unmute(&mut self, target: SteamId) -> (r: bool)
        ensures
            r == old(self).player_of(target) is Some,
    {
        self.update_player(target, true, None)
    }
}

impl Default for ChatManager {
    /// Keeps no history.
    fn default() -> (r: Self)
        ensures
            r.players().len() == 0 && r.history_limit() == 0,
    {
        ChatManager::new(0)
    }
}

/// Masks blocked words in messages, ignoring case.
pub struct ProfanityFilter {
    blocked_words: Vec<String>,
    replacement: char,
}

/// The texts of the words.
pub open spec fn words_view(w: Seq<String>) -> Seq<Seq<char>> {
    w.map_values(|s: String| s@)
}

/// Whether the non-empty word `w` occurs in `t` at `i`.
pub open spec fn occurs_at(t: Seq<char>, w: Seq<char>, i: int) -> bool {
    w.len() > 0 && 0 <= i && i + w.len() <= t.len() && t.subrange(i, i + w.len()) == w
}

/// Whether position `k` of `t` lies in an occurrence of one of `words`.
pub open spec fn covered(t: Seq<char>, words: Seq<Seq<char>>, k: int) -> bool {
    exists|j: int, i: int| 0 <= j < words.len() && #[trigger] occurs_at(t, words[j], i) && i <= k && k < i + words[j].len()
}

/// `text` with each position covered in `lower` by a word replaced by `*`.
pub open spec fn masked(text: Seq<char>, lower: Seq<char>, words: Seq<Seq<char>>) -> Seq<char> {
    Seq::new(text.len(), |k: int| if covered(lower, words, k) { '*' } else { text[k] })
}

fn occurs(t: &Vec<char>, w: &Vec<char>, i: usize) -> (r: bool)
    ensures
        r == occurs_at(t@, w@, i as int),
{
    let n = w.len();
    if n == 0 || i > t.len() || n > t.len() - i {
        return false;
    }
    let mut j: usize = 0;
    while j < n
        invariant
            n == w@.len(),
            i + n <= t@.len() <= usize::MAX,
            j <= n,
            forall|m: int| 0 <= m < j ==> t@[i + m] == w@[m],
        decreases n - j,
    {
        if t[i + j] != w[j] {
            assert(t@.subrange(i as int, i + n)[j as int] != w@[j as int]);
            return false;
        }
        j = j + 1;
    }
    assert(t@.subrange(i as int, i + n) =~= w@);
    true
}

/// Whether some blocked word occurs in the lowercase form of `m`.
pub open spec fn has_blocked(words: Seq<String>, m: Seq<char>) -> bool {
    exists|k: int| 0 <= k < words.len() && contains_sub(lower_of(m), #[trigger] words[k]@)
}

impl ProfanityFilter {
    /// The blocked words, lowercase.
    pub closed spec fn words(&self) -> Seq<String> {
        self.blocked_words@
    }

    /// No blocked words; masks with `*`.
    pub fn new() -> (r: Self)
        ensures
            r.words().len() == 0,
    {
        ProfanityFilter { blocked_words: Vec::new(), replacement: '*' }
    }

    /// Blocks `word` (stored lowercase).
    pub fn add_word(&mut self, word: &str)
        ensures
            final(self).words().len() == old(self).words().len() + 1,
            final(self).words().last()@ == lower_of(word@),
            final(self).words().subrange(0, old(self).words().len() as int) == old(self).words(),
    {
        self.blocked_words.push(lowercase(word));
        assert(self.blocked_words@.subrange(0, old(self).blocked_words@.len() as int) =~= old(self).blocked_words@);
    }

    fn covers(&self, lower: &Vec<char>, k: usize) -> (r: bool)
        requires
            k < lower@.len() <= usize::MAX,
        ensures
            r == covered(lower@, words_view(self.blocked_words@), k as int),
    {
        let ghost ws = words_view(self.blocked_words@);
        let mut j: usize = 0;
        while j < self.blocked_words.len()
            invariant
                j <= self.blocked_words@.len() == ws.len(),
                k < lower@.len() <= usize::MAX,
                ws == words_view(self.blocked_words@),
                forall|jj: int, i: int| 0 <= jj < j && #[trigger] occurs_at(lower@, ws[jj], i) ==> !(i <= k && k < i + ws[jj].len()),
            decreases self.blocked_words@.len() - j,
        {
            let word = chars_of(self.blocked_words[j].as_str());
            assert(word@ == ws[j as int]);
            let n = word.len();
            if n > 0 {
                let lo: usize = if k >= n - 1 { k - (n - 1) } else { 0 };
                let mut i: usize = lo;
                while i <= k
                    invariant
                        lo <= i <= k + 1,
                        k < lower@.len() <= usize::MAX,
                        n == word@.len() > 0,
                        lo as int == if k + 1 >= n { k + 1 - n } else { 0 },
                        forall|ii: int| lo <= ii < i ==> !occurs_at(lower@, word@, ii),
                        j < ws.len(),
                        ws == words_view(self.blocked_words@),
                        word@ == ws[j as int],
                        forall|jj: int, ii: int| 0 <= jj < j && #[trigger] occurs_at(lower@, ws[jj], ii) ==> !(ii <= k && k < ii + ws[jj].len()),
                    decreases k + 1 - i,
                {
                    if occurs(lower, &word, i) {
                        assert(occurs_at(lower@, ws[j as int], i as int) && i <= k && k < i + ws[j as int].len());
                        return true;
                    }
                    i = i + 1;
                }
                assert forall|jj: int, ii: int| 0 <= jj < j + 1 && #[trigger] occurs_at(lower@, ws[jj], ii)
                    implies !(ii <= k && k < ii + ws[jj].len()) by {
                    if jj == j {
                        if ii <= k && k < ii + ws[jj].len() {
                            assert(lo <= ii);
                        }
                    }
                }
            }
            j = j + 1;
        }
        false
    }

    /// `message` with every character covered by an occurrence of a blocked
    /// word in its lowercase form replaced by `*`, when lowercasing keeps
    /// every character in place; otherwise `message` unchanged.
    pub fn filter(&self, message: &str) -> (r: String)
        ensures
            lower_of(message@).len() == message@.len() ==> r@ == masked(message@, lower_of(message@), words_view(self.words())),
            lower_of(message@).len() != message@.len() ==> r@ == message@,
    {
        let text = chars_of(message);
        let lower = chars_of(lowercase(message).as_str());
        if lower.len() != text.len() {
            return string_from(&text);
        }
        let ghost want = masked(text@, lower@, words_view(self.blocked_words@));
        let mut out: Vec<char> = Vec::new();
        let mut k: usize = 0;
        while k < text.len()
            invariant
                k <= text@.len() == lower@.len() <= usize::MAX,
                want == masked(text@, lower@, words_view(self.blocked_words@)),
                out@ == want.subrange(0, k as int),
            decreases text@.len() - k,
        {
            let c = if self.covers(&lower, k) { '*' } else { text[k] };
            out.push(c);
            k = k + 1;
            assert(out@ =~= want.subrange(0, k as int));
        }
        assert(want.subrange(0, text@.len() as int) =~= want);
        string_from(&out)
    }

    /// Whether a blocked word occurs in the lowercase form of `message`.
    pub fn contains_blocked(&self, message: &str) -> (r: bool)
        ensures
            r == has_blocked(self.words(), message@),
    {
        let lower = chars_of(lowercase(message).as_str());
        let mut w: usize = 0;
        while w < self.blocked_words.len()
            invariant
                w <= self.blocked_words@.len(),
                lower@ == lower_of(message@),
                forall|k: int| 0 <= k < w ==> !contains_sub(lower_of(message@), #[trigger] self.blocked_words@[k]@),
            decreases self.blocked_words@.len() - w,
        {
            let word = chars_of(self.blocked_words[w].as_str());
            if contains_text(&lower, &word) {
                return true;
            }
            w = w + 1;
        }
        false
    }
}

impl Default for ProfanityFilter {
    /// No blocked words.
    fn default() -> (r: Self)
        ensures
            r.words().len() == 0,
    {
        ProfanityFilter::new()
    }
}

} // verus!
