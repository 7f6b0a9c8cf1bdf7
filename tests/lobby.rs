use engine::lobby::{Lobby, LobbyComparison, LobbyError, LobbyManager, LobbySearchFilter, LobbyType, MAX_LOBBY_KEY_LENGTH, MAX_LOBBY_VALUE_LENGTH};
use engine::steam_id::SteamId;

fn test_steam_id(n: u32) -> SteamId {
    SteamId::from_account_id(n)
}

// =============================================================================
// LOB-001: Create Public Lobby
// Reference: https://partner.steamgames.com/doc/api/ISteamMatchmaking#CreateLobby
// =============================================================================

#[test]
fn lob_001_create_public_lobby() {
    let mut manager = LobbyManager::new();
    let owner = test_steam_id(12345);
    
    let lobby_id = manager.create_lobby(owner, LobbyType::Public, 8);
    
    assert!(lobby_id.is_valid());
    let lobby = manager.get_lobby(lobby_id).unwrap();
    assert_eq!(lobby.lobby_type, LobbyType::Public);
    assert_eq!(lobby.owner, owner);
    assert_eq!(lobby.max_members, 8);
    assert_eq!(lobby.member_count(), 1); // Owner is first member
}

// =============================================================================
// LOB-002: Create Private Lobby
// =============================================================================

#[test]
fn lob_002_create_private_lobby() {
    let mut manager = LobbyManager::new();
    let owner = test_steam_id(12345);
    
    let lobby_id = manager.create_lobby(owner, LobbyType::Private, 4);
    
    let lobby = manager.get_lobby(lobby_id).unwrap();
    assert_eq!(lobby.lobby_type, LobbyType::Private);
    assert!(!lobby.lobby_type.is_searchable());
}

// =============================================================================
// LOB-003: Create Friends-Only Lobby
// =============================================================================

#[test]
fn lob_003_create_friends_only_lobby() {
    let mut manager = LobbyManager::new();
    let owner = test_steam_id(12345);
    
    let lobby_id = manager.create_lobby(owner, LobbyType::FriendsOnly, 4);
    
    let lobby = manager.get_lobby(lobby_id).unwrap();
    assert_eq!(lobby.lobby_type, LobbyType::FriendsOnly);
    assert!(lobby.lobby_type.is_searchable());
}

// =============================================================================
// LOB-004: Create Invisible Lobby
// =============================================================================

#[test]
fn lob_004_create_invisible_lobby() {
    let mut manager = LobbyManager::new();
    let owner = test_steam_id(12345);
    
    let lobby_id = manager.create_lobby(owner, LobbyType::Invisible, 2);
    
    let lobby = manager.get_lobby(lobby_id).unwrap();
    assert_eq!(lobby.lobby_type, LobbyType::Invisible);
    assert!(!lobby.lobby_type.is_searchable());
}

// =============================================================================
// LOB-005: Join Lobby by ID
// Reference: https://partner.steamgames.com/doc/api/ISteamMatchmaking#JoinLobby
// =============================================================================

#[test]
fn lob_005_join_lobby() {
    let mut manager = LobbyManager::new();
    let owner = test_steam_id(12345);
    let joiner = test_steam_id(67890);
    
    let lobby_id = manager.create_lobby(owner, LobbyType::Public, 8);
    
    let lobby = manager.get_lobby_mut(lobby_id).unwrap();
    lobby.add_member(joiner).unwrap();
    
    assert_eq!(lobby.member_count(), 2);
    assert!(lobby.is_member(joiner));
}

#[test]
fn lob_005_join_full_lobby_fails() {
    let mut manager = LobbyManager::new();
    let owner = test_steam_id(1);
    
    let lobby_id = manager.create_lobby(owner, LobbyType::Public, 2);
    
    let lobby = manager.get_lobby_mut(lobby_id).unwrap();
    lobby.add_member(test_steam_id(2)).unwrap();
    
    // Third member should fail
    let result = lobby.add_member(test_steam_id(3));
    assert_eq!(result, Err(LobbyError::LobbyFull));
}

// =============================================================================
// LOB-006: Leave Lobby
// Reference: https://partner.steamgames.com/doc/api/ISteamMatchmaking#LeaveLobby
// =============================================================================

#[test]
fn lob_006_leave_lobby() {
    let mut manager = LobbyManager::new();
    let owner = test_steam_id(12345);
    let member = test_steam_id(67890);
    
    let lobby_id = manager.create_lobby(owner, LobbyType::Public, 8);
    
    let lobby = manager.get_lobby_mut(lobby_id).unwrap();
    lobby.add_member(member).unwrap();
    lobby.remove_member(member).unwrap();
    
    assert_eq!(lobby.member_count(), 1);
    assert!(!lobby.is_member(member));
}

// =============================================================================
// LOB-007: Lobby Member Limit
// Reference: https://partner.steamgames.com/doc/api/ISteamMatchmaking#SetLobbyMemberLimit
// =============================================================================

#[test]
fn lob_007_set_member_limit() {
    let mut manager = LobbyManager::new();
    let owner = test_steam_id(12345);
    
    let lobby_id = manager.create_lobby(owner, LobbyType::Public, 8);
    
    let lobby = manager.get_lobby_mut(lobby_id).unwrap();
    lobby.set_member_limit(16).unwrap();
    
    assert_eq!(lobby.max_members, 16);
}

#[test]
fn lob_007_limit_below_members_fails() {
    let mut manager = LobbyManager::new();
    let owner = test_steam_id(12345);
    
    let lobby_id = manager.create_lobby(owner, LobbyType::Public, 8);
    
    let lobby = manager.get_lobby_mut(lobby_id).unwrap();
    lobby.add_member(test_steam_id(2)).unwrap();
    lobby.add_member(test_steam_id(3)).unwrap();
    
    // Can't set limit below current count
    let result = lobby.set_member_limit(2);
    assert_eq!(result, Err(LobbyError::LimitTooLow));
}

// =============================================================================
// LOB-008: Lobby Owner Transfer
// Reference: https://partner.steamgames.com/doc/api/ISteamMatchmaking#SetLobbyOwner
// =============================================================================

#[test]
fn lob_008_owner_transfer_on_leave() {
    let mut manager = LobbyManager::new();
    let owner = test_steam_id(12345);
    let member = test_steam_id(67890);
    
    let lobby_id = manager.create_lobby(owner, LobbyType::Public, 8);
    
    let lobby = manager.get_lobby_mut(lobby_id).unwrap();
    lobby.add_member(member).unwrap();
    lobby.remove_member(owner).unwrap();
    
    // New owner should be the remaining member
    assert_eq!(lobby.owner, member);
}

#[test]
fn lob_008_explicit_owner_transfer() {
    let mut manager = LobbyManager::new();
    let owner = test_steam_id(12345);
    let member = test_steam_id(67890);
    
    let lobby_id = manager.create_lobby(owner, LobbyType::Public, 8);
    
    let lobby = manager.get_lobby_mut(lobby_id).unwrap();
    lobby.add_member(member).unwrap();
    lobby.set_owner(member).unwrap();
    
    assert_eq!(lobby.owner, member);
}

// =============================================================================
// LOB-009: Lobby Deletion When Empty
// =============================================================================

#[test]
fn lob_009_cleanup_empty_lobbies() {
    let mut manager = LobbyManager::new();
    let owner = test_steam_id(12345);
    
    let lobby_id = manager.create_lobby(owner, LobbyType::Public, 8);
    
    // Remove owner (last member)
    manager.get_lobby_mut(lobby_id).unwrap().remove_member(owner).unwrap();
    
    manager.cleanup_empty();
    
    assert!(manager.get_lobby(lobby_id).is_none());
}

// =============================================================================
// LOB-010: Lobby Search
// Reference: https://partner.steamgames.com/doc/api/ISteamMatchmaking#RequestLobbyList
// =============================================================================

#[test]
fn lob_010_basic_search() {
    let mut manager = LobbyManager::new();
    
    // Create some lobbies
    manager.create_lobby(test_steam_id(1), LobbyType::Public, 8);
    manager.create_lobby(test_steam_id(2), LobbyType::Private, 4);
    manager.create_lobby(test_steam_id(3), LobbyType::Public, 8);
    
    let filter = LobbySearchFilter::new();
    let results = manager.search(&filter);
    
    // Should only return public lobbies
    assert_eq!(results.len(), 2);
}

// =============================================================================
// LOB-DATA-001: Set Lobby Data
// Reference: https://partner.steamgames.com/doc/api/ISteamMatchmaking#SetLobbyData
// =============================================================================

#[test]
fn lob_data_001_set_lobby_data() {
    let mut manager = LobbyManager::new();
    let owner = test_steam_id(12345);
    
    let lobby_id = manager.create_lobby(owner, LobbyType::Public, 8);
    
    let lobby = manager.get_lobby_mut(lobby_id).unwrap();
    lobby.set_data("map", "de_dust2").unwrap();
    lobby.set_data("gamemode", "competitive").unwrap();
    
    assert_eq!(lobby.get_data("map"), Some("de_dust2"));
    assert_eq!(lobby.get_data("gamemode"), Some("competitive"));
}

// =============================================================================
// LOB-DATA-003: Lobby Data Limits
// =============================================================================

#[test]
fn lob_data_003_key_length_limit() {
    let mut manager = LobbyManager::new();
    let owner = test_steam_id(12345);
    
    let lobby_id = manager.create_lobby(owner, LobbyType::Public, 8);
    
    let lobby = manager.get_lobby_mut(lobby_id).unwrap();
    let long_key = "k".repeat(MAX_LOBBY_KEY_LENGTH + 1);
    
    let result = lobby.set_data(&long_key, "value");
    assert_eq!(result, Err(LobbyError::KeyTooLong));
}

#[test]
fn lob_data_003_value_length_limit() {
    let mut manager = LobbyManager::new();
    let owner = test_steam_id(12345);
    
    let lobby_id = manager.create_lobby(owner, LobbyType::Public, 8);
    
    let lobby = manager.get_lobby_mut(lobby_id).unwrap();
    let long_value = "v".repeat(MAX_LOBBY_VALUE_LENGTH + 1);
    
    let result = lobby.set_data("key", &long_value);
    assert_eq!(result, Err(LobbyError::ValueTooLong));
}

// =============================================================================
// LOB-DATA-004: Member Data
// =============================================================================

#[test]
fn lob_data_004_member_data() {
    let mut manager = LobbyManager::new();
    let owner = test_steam_id(12345);
    
    let lobby_id = manager.create_lobby(owner, LobbyType::Public, 8);
    
    let lobby = manager.get_lobby_mut(lobby_id).unwrap();
    lobby.set_member_data(owner, "ready", "true").unwrap();
    
    assert_eq!(lobby.get_member_data(owner, "ready"), Some("true"));
}

// =============================================================================
// LOB-DATA-006: Game Server Info
// Reference: https://partner.steamgames.com/doc/api/ISteamMatchmaking#SetLobbyGameServer
// =============================================================================

#[test]
fn lob_data_006_game_server_info() {
    let mut manager = LobbyManager::new();
    let owner = test_steam_id(12345);
    
    let lobby_id = manager.create_lobby(owner, LobbyType::Public, 8);
    
    let lobby = manager.get_lobby_mut(lobby_id).unwrap();
    lobby.set_game_server(0x7F000001, 27015, None); // 127.0.0.1:27015
    
    let gs = lobby.game_server.as_ref().unwrap();
    assert_eq!(gs.ip, 0x7F000001);
    assert_eq!(gs.port, 27015);
}

// =============================================================================
// Filter Tests
// =============================================================================

#[test]
fn filter_by_slots_available() {
    let mut manager = LobbyManager::new();
    
    // Create a lobby with 8 slots, 1 member
    let lobby_id = manager.create_lobby(test_steam_id(1), LobbyType::Public, 8);
    
    // Search for lobbies with at least 5 slots
    let filter = LobbySearchFilter::new().with_slots_available(5);
    let results = manager.search(&filter);
    
    assert_eq!(results.len(), 1);
    assert_eq!(results[0].available_slots(), 7);
}

#[test]
fn filter_by_string_data() {
    let mut manager = LobbyManager::new();
    
    let lobby_id1 = manager.create_lobby(test_steam_id(1), LobbyType::Public, 8);
    let lobby_id2 = manager.create_lobby(test_steam_id(2), LobbyType::Public, 8);
    
    manager.get_lobby_mut(lobby_id1).unwrap().set_data("map", "de_dust2").unwrap();
    manager.get_lobby_mut(lobby_id2).unwrap().set_data("map", "cs_office").unwrap();
    
    let filter = LobbySearchFilter::new()
        .with_string_filter("map", "de_dust2", LobbyComparison::Equal);
    
    let results = manager.search(&filter);
    assert_eq!(results.len(), 1);
    assert_eq!(results[0].get_data("map"), Some("de_dust2"));
}

#[test]
fn filter_by_numeric_data() {
    let mut manager = LobbyManager::new();
    
    let lobby_id1 = manager.create_lobby(test_steam_id(1), LobbyType::Public, 8);
    let lobby_id2 = manager.create_lobby(test_steam_id(2), LobbyType::Public, 8);
    
    manager.get_lobby_mut(lobby_id1).unwrap().set_data("skill", "1000").unwrap();
    manager.get_lobby_mut(lobby_id2).unwrap().set_data("skill", "2000").unwrap();
    
    let filter = LobbySearchFilter::new()
        .with_numeric_filter("skill", 1500, LobbyComparison::GreaterThan);
    
    let results = manager.search(&filter);
    assert_eq!(results.len(), 1);
}

#[test]
fn filter_max_results() {
    let mut manager = LobbyManager::new();
    
    for i in 0..10 {
        manager.create_lobby(test_steam_id(i), LobbyType::Public, 8);
    }
    
    let filter = LobbySearchFilter::new().with_max_results(3);
    let results = manager.search(&filter);
    
    assert_eq!(results.len(), 3);
}
