use engine::gsi::{GameMode, GsiConfig, GsiMap, GsiProvider, MapPhase};
use engine::steam_id::SteamId;

fn test_steam_id() -> SteamId {
    SteamId::from_account_id(12345678)
}

#[test]
fn gsi_001_provider_block() {
    let provider = GsiProvider::new("Counter-Strike 2", 730, 14000, test_steam_id());

    assert_eq!(provider.name, "Counter-Strike 2");
    assert_eq!(provider.appid, 730);
    assert_eq!(provider.version, 14000);
    assert!(!provider.steamid.is_empty());
    assert!(provider.timestamp > 0);
}

#[test]
fn gsi_002_map_block() {
    let map = GsiMap::new("de_dust2", GameMode::Competitive);

    assert_eq!(map.name, "de_dust2");
    assert_eq!(map.mode, GameMode::Competitive);
    assert_eq!(map.phase, MapPhase::Warmup);
    assert_eq!(map.round, 0);
}

#[test]
fn default_config() {
    let config = GsiConfig::default();

    assert!(config.uri.starts_with("http"));
    assert!(config.timeout.as_secs() > 0);
}

#[test]
fn provider_steamid_is_decimal() {
    let id = test_steam_id();
    let provider = GsiProvider::new("g", 1, 1, id);
    assert_eq!(provider.steamid, id.as_u64().to_string());
}
