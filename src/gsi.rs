//! Game-state integration: the blocks a game reports about itself and its
//! map, and the settings of the endpoint it reports to.
use std::time::Duration;
use vstd::prelude::*;

use crate::clock::{millis, secs, unix_now_secs};
use crate::steam_id::SteamId;
use crate::text::{decimal, push_decimal_u64, string_from};

verus! {

/// The game that reports.
#[derive(Debug, Clone, PartialEq)]
pub struct GsiProvider {
    pub name: String,
    pub appid: u32,
    pub version: u32,
    pub steamid: String,
    pub timestamp: u64,
}

impl GsiProvider {
    /// The provider block, stamped with the current time; the id is written
    /// as its decimal 64-bit value.
    pub fn new(name: &str, appid: u32, version: u32, steam_id: SteamId) -> (r: Self)
        ensures
            r.name@ == name@ && r.appid == appid && r.version == version,
            r.steamid@ == decimal(steam_id.0 as nat),
    {
        let mut digits: Vec<char> = Vec::new();
        push_decimal_u64(&mut digits, steam_id.0);
        assert(digits@ =~= decimal(steam_id.0 as nat));
        GsiProvider {
            name: name.to_owned(),
            appid,
            version,
            steamid: string_from(&digits),
            timestamp: unix_now_secs(),
        }
    }
}

/// Phase of the map.
#[derive(Debug, Clone, Copy, PartialEq, Eq, Structural)]
pub enum MapPhase {
    Warmup,
    Live,
    Intermission,
    GameOver,
}

/// Game mode.
#[derive(Debug, Clone, Copy, PartialEq, Eq, Structural)]
pub enum GameMode {
    Competitive,
    Casual,
    Deathmatch,
    Custom,
    Coop,
    Survival,
}

/// One team's standing.
#[derive(Debug, Clone, Copy, PartialEq, Eq, Structural)]
pub struct TeamScore {
    pub score: u32,
    pub consecutive_round_losses: u32,
    pub timeouts_remaining: u32,
    pub matches_won_this_series: u32,
}

impl Default for TeamScore {
    /// All zero.
    fn default() -> (r: Self)
        ensures
            r.score == 0 && r.consecutive_round_losses == 0 && r.timeouts_remaining == 0 && r.matches_won_this_series == 0,
    {
        TeamScore { score: 0, consecutive_round_losses: 0, timeouts_remaining: 0, matches_won_this_series: 0 }
    }
}

/// The map block.
#[derive(Debug, Clone, PartialEq)]
pub struct GsiMap {
    pub mode: GameMode,
    pub name: String,
    pub phase: MapPhase,
    pub round: u32,
    pub team_ct: TeamScore,
    pub team_t: TeamScore,
    pub num_matches_to_win_series: u32,
}

impl GsiMap {
    /// A map in warmup, round 0, both teams at zero.
    pub fn new(name: &str, mode: GameMode) -> (r: Self)
        ensures
            r.name@ == name@ && r.mode == mode && r.phase == MapPhase::Warmup && r.round == 0,
            r.team_ct.score == 0 && r.team_t.score == 0 && r.num_matches_to_win_series == 0,
    {
        GsiMap {
            mode,
            name: name.to_owned(),
            phase: MapPhase::Warmup,
            round: 0,
            team_ct: TeamScore::default(),
            team_t: TeamScore::default(),
            num_matches_to_win_series: 0,
        }
    }
}

/// Which blocks the endpoint wants.
#[derive(Debug, Clone, Copy)]
pub struct GsiDataSubscriptions {
    pub provider: bool,
    pub map: bool,
    pub round: bool,
    pub player_id: bool,
    pub player_state: bool,
    pub player_weapons: bool,
    pub player_match_stats: bool,
    pub allplayers_id: bool,
    pub allplayers_state: bool,
    pub allplayers_match_stats: bool,
    pub allplayers_weapons: bool,
    pub allplayers_position: bool,
    pub phase_countdowns: bool,
    pub allgrenades: bool,
    pub bomb: bool,
}

impl Default for GsiDataSubscriptions {
    /// Nothing subscribed.
    fn default() -> (r: Self)
        ensures
            !r.provider && !r.map && !r.round && !r.player_id && !r.player_state && !r.bomb,
    {
        GsiDataSubscriptions {
            provider: false,
            map: false,
            round: false,
            player_id: false,
            player_state: false,
            player_weapons: false,
            player_match_stats: false,
            allplayers_id: false,
            allplayers_state: false,
            allplayers_match_stats: false,
            allplayers_weapons: false,
            allplayers_position: false,
            phase_countdowns: false,
            allgrenades: false,
            bomb: false,
        }
    }
}

/// Where and how often state is reported.
#[derive(Debug, Clone)]
pub struct GsiConfig {
    pub uri: String,
    pub timeout: Duration,
    pub buffer: Duration,
    pub throttle: Duration,
    pub heartbeat: Duration,
    pub auth_token: Option<String>,
    pub data_subscriptions: GsiDataSubscriptions,
}

impl Default for GsiConfig {
    /// `http://127.0.0.1:3000`, a one-second timeout, 100 ms buffer and
    /// throttle, a one-minute heartbeat, no token, nothing subscribed.
    fn default() -> (r: Self)
        ensures
            r.uri@ == "http://127.0.0.1:3000"@,
            r.auth_token is None,
    {
        GsiConfig {
            uri: "http://127.0.0.1:3000".to_owned(),
            timeout: secs(1),
            buffer: millis(100),
            throttle: millis(100),
            heartbeat: secs(60),
            auth_token: None,
            data_subscriptions: GsiDataSubscriptions::default(),
        }
    }
}

} // verus!
