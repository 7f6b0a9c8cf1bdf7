use engine::rich_presence::{KEY_STEAM_PLAYER_GROUP, KEY_STEAM_PLAYER_GROUP_SIZE, MAX_KEY_LENGTH, MAX_RICH_PRESENCE_KEYS, MAX_VALUE_LENGTH, RichPresenceData, RichPresenceError, RichPresenceManager, RichPresenceRateLimiter};
use engine::steam_id::SteamId;
use std::time::Duration;

fn test_steam_id(n: u32) -> SteamId {
    SteamId::from_account_id(n)
}

// =============================================================================
// RP-001: Set Rich Presence
// Reference: https://partner.steamgames.com/doc/api/ISteamFriends#SetRichPresence
// =============================================================================

#[test]
fn rp_001_set_rich_presence() {
    let mut manager = RichPresenceManager::new();

    manager.set_rich_presence("status", "In Match").unwrap();
    manager.set_rich_presence("map", "de_dust2").unwrap();

    assert_eq!(manager.get_local_presence("status"), Some("In Match"));
    assert_eq!(manager.get_local_presence("map"), Some("de_dust2"));
}

#[test]
fn rp_001_overwrite_value() {
    let mut manager = RichPresenceManager::new();

    manager.set_rich_presence("status", "In Lobby").unwrap();
    manager.set_rich_presence("status", "In Match").unwrap();

    assert_eq!(manager.get_local_presence("status"), Some("In Match"));
}

// =============================================================================
// RP-002: Clear Rich Presence
// Reference: https://partner.steamgames.com/doc/api/ISteamFriends#ClearRichPresence
// =============================================================================

#[test]
fn rp_002_clear_rich_presence() {
    let mut manager = RichPresenceManager::new();

    manager.set_rich_presence("status", "Playing").unwrap();
    manager.set_rich_presence("map", "cs_office").unwrap();

    manager.clear_rich_presence();

    assert!(manager.get_local_presence("status").is_none());
    assert!(manager.get_local_presence("map").is_none());
}

// =============================================================================
// RP-003: Get Friend Rich Presence
// Reference: https://partner.steamgames.com/doc/api/ISteamFriends#GetFriendRichPresence
// =============================================================================

#[test]
fn rp_003_get_friend_presence() {
    let mut manager = RichPresenceManager::new();
    let friend = test_steam_id(12345);

    let mut friend_data = RichPresenceData::new();
    friend_data.set("status", "In Game").unwrap();
    friend_data.set("map", "de_mirage").unwrap();

    manager.update_friend_presence(friend, 730, friend_data);

    assert_eq!(
        manager.get_friend_rich_presence(friend, "status"),
        Some("In Game")
    );
    assert_eq!(
        manager.get_friend_rich_presence(friend, "map"),
        Some("de_mirage")
    );
}

// =============================================================================
// RP-004: Rich Presence Key Count
// Reference: https://partner.steamgames.com/doc/api/ISteamFriends#GetFriendRichPresenceKeyCount
// =============================================================================

#[test]
fn rp_004_key_count() {
    let mut manager = RichPresenceManager::new();
    let friend = test_steam_id(12345);

    let mut friend_data = RichPresenceData::new();
    friend_data.set("status", "Playing").unwrap();
    friend_data.set("map", "de_dust2").unwrap();
    friend_data.set("mode", "competitive").unwrap();

    manager.update_friend_presence(friend, 730, friend_data);

    assert_eq!(manager.get_friend_rich_presence_key_count(friend), 3);
}

#[test]
fn rp_004_unknown_friend_zero_keys() {
    let manager = RichPresenceManager::new();
    let unknown = test_steam_id(99999);

    assert_eq!(manager.get_friend_rich_presence_key_count(unknown), 0);
}

// =============================================================================
// RP-005: Steam Group Key
// =============================================================================

#[test]
fn rp_005_player_group() {
    let mut data = RichPresenceData::new();
    data.set_player_group("group_12345", 4).unwrap();

    assert_eq!(data.get(KEY_STEAM_PLAYER_GROUP), Some("group_12345"));
    assert_eq!(data.get(KEY_STEAM_PLAYER_GROUP_SIZE), Some("4"));
}

// =============================================================================
// RP-006: Connect String
// Reference: https://partner.steamgames.com/doc/features/enhancedrichpresence
// =============================================================================

#[test]
fn rp_006_connect_string() {
    let mut data = RichPresenceData::new();
    data.set_connect("+connect 192.168.1.100:27015").unwrap();

    assert_eq!(data.connect(), Some("+connect 192.168.1.100:27015"));
}

// =============================================================================
// RP-007: Status String
// =============================================================================

#[test]
fn rp_007_status_string() {
    let mut data = RichPresenceData::new();
    data.set_status("Playing Competitive on de_dust2").unwrap();

    assert_eq!(data.status(), Some("Playing Competitive on de_dust2"));
}

// =============================================================================
// RP-009: Rich Presence Update Rate
// =============================================================================


// =============================================================================
// RP-010: Rich Presence Callback
// Reference: https://partner.steamgames.com/doc/api/ISteamFriends#FriendRichPresenceUpdate_t
// =============================================================================

#[test]
fn rp_010_presence_update_callback() {
    let mut manager = RichPresenceManager::new();
    let friend = test_steam_id(12345);

    let mut friend_data = RichPresenceData::new();
    friend_data.set("status", "Online").unwrap();

    manager.update_friend_presence(friend, 730, friend_data);

    let callbacks = manager.drain_callbacks();
    assert_eq!(callbacks.len(), 1);
    assert_eq!(callbacks[0].steam_id, friend);
    assert_eq!(callbacks[0].app_id, 730);
}

// =============================================================================
// Validation Tests
// =============================================================================

#[test]
fn key_length_limit() {
    let mut data = RichPresenceData::new();
    let long_key = "k".repeat(MAX_KEY_LENGTH + 1);

    let result = data.set(&long_key, "value");
    assert_eq!(result, Err(RichPresenceError::KeyTooLong));
}

#[test]
fn value_length_limit() {
    let mut data = RichPresenceData::new();
    let long_value = "v".repeat(MAX_VALUE_LENGTH + 1);

    let result = data.set("key", &long_value);
    assert_eq!(result, Err(RichPresenceError::ValueTooLong));
}

#[test]
fn max_keys_limit() {
    let mut data = RichPresenceData::new();

    for i in 0..MAX_RICH_PRESENCE_KEYS {
        data.set(&format!("key{}", i), "value").unwrap();
    }

    let result = data.set("one_more", "value");
    assert_eq!(result, Err(RichPresenceError::TooManyKeys));
}

#[test]
fn update_existing_key_within_limit() {
    let mut data = RichPresenceData::new();

    for i in 0..MAX_RICH_PRESENCE_KEYS {
        data.set(&format!("key{}", i), "value").unwrap();
    }

    // Updating existing key should work
    data.set("key0", "new_value").unwrap();
    assert_eq!(data.get("key0"), Some("new_value"));
}
