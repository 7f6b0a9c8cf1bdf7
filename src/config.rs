//! Engine configuration.
use vstd::prelude::*;

verus! {

/// Default tick rate in Hz.
pub const DEFAULT_TICK_HZ: u32 = 64;

/// Settings shared by the server and the client.
#[derive(Debug, Clone)]
pub struct EngineConfig {
    /// Server address, `host:port`.
    pub server_addr: String,
    /// Simulation ticks per second.
    pub tick_hz: u32,
    /// Directory that holds the map files.
    pub maps_dir: String,
    /// Display name of the local player.
    pub player_name: String,
}

impl Default for EngineConfig {
    /// `127.0.0.1:40000`, 64 Hz, maps in `maps`, player `Player`.
    fn default() -> (r: Self)
        ensures
            r.server_addr@ == "127.0.0.1:40000"@,
            r.tick_hz == DEFAULT_TICK_HZ,
            r.maps_dir@ == "maps"@,
            r.player_name@ == "Player"@,
    {
        EngineConfig {
            server_addr: "127.0.0.1:40000".to_owned(),
            tick_hz: DEFAULT_TICK_HZ,
            maps_dir: "maps".to_owned(),
            player_name: "Player".to_owned(),
        }
    }
}

} // verus!
