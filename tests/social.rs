use engine::social::{Clan, CoplayFriend, Friend, FriendFlags, FriendRelationship, FriendsManager, InviteResult, PersonaState};


// =============================================================================
// SOC-001: Get Friends List
// Reference: https://partner.steamgames.com/doc/api/ISteamFriends#GetFriendCount
// Reference: https://partner.steamgames.com/doc/api/ISteamFriends#GetFriendByIndex
// =============================================================================

#[test]
fn soc_001_get_friends_list() {
    let mut mgr = FriendsManager::new(12345, 730);

    mgr.add_friend(Friend::new(111, "Alice"));
    mgr.add_friend(Friend::new(222, "Bob"));
    mgr.add_friend(Friend::new(333, "Charlie"));

    assert_eq!(mgr.get_friend_count(FriendFlags::ALL), 3);
}

#[test]
fn soc_001_get_friend_by_index() {
    let mut mgr = FriendsManager::new(12345, 730);

    mgr.add_friend(Friend::new(111, "Alice"));
    mgr.add_friend(Friend::new(222, "Bob"));

    let friend0 = mgr.get_friend_by_index(0, FriendFlags::ALL);
    let friend1 = mgr.get_friend_by_index(1, FriendFlags::ALL);

    assert!(friend0.is_some());
    assert!(friend1.is_some());
    assert!(mgr.get_friend_by_index(2, FriendFlags::ALL).is_none());
}

// =============================================================================
// SOC-002: Friend Relationship
// Reference: https://partner.steamgames.com/doc/api/ISteamFriends#GetFriendRelationship
// =============================================================================

#[test]
fn soc_002_friend_relationship() {
    let mut mgr = FriendsManager::new(12345, 730);

    let mut friend = Friend::new(111, "Alice");
    friend.relationship = FriendRelationship::Friend;
    mgr.add_friend(friend);

    assert_eq!(
        mgr.get_friend_relationship(111),
        FriendRelationship::Friend
    );
}

#[test]
fn soc_002_not_friend() {
    let mgr = FriendsManager::new(12345, 730);

    assert_eq!(
        mgr.get_friend_relationship(999),
        FriendRelationship::NoRelationship
    );
}

#[test]
fn soc_002_blocked_relationship() {
    let mut mgr = FriendsManager::new(12345, 730);

    let mut friend = Friend::new(111, "Blocked User");
    friend.relationship = FriendRelationship::Blocked;
    mgr.add_friend(friend);

    assert_eq!(
        mgr.get_friend_relationship(111),
        FriendRelationship::Blocked
    );
}

// =============================================================================
// SOC-003: Friend Persona Name
// Reference: https://partner.steamgames.com/doc/api/ISteamFriends#GetFriendPersonaName
// =============================================================================

#[test]
fn soc_003_friend_persona_name() {
    let mut mgr = FriendsManager::new(12345, 730);

    mgr.add_friend(Friend::new(111, "CoolPlayer123"));

    assert_eq!(mgr.get_friend_persona_name(111), Some("CoolPlayer123"));
}

#[test]
fn soc_003_unknown_user_name() {
    let mgr = FriendsManager::new(12345, 730);

    assert_eq!(mgr.get_friend_persona_name(999), None);
}

// =============================================================================
// SOC-004: Friend Game Info
// Reference: https://partner.steamgames.com/doc/api/ISteamFriends#GetFriendGamePlayed
// =============================================================================

#[test]
fn soc_004_friend_game_info() {
    let mut mgr = FriendsManager::new(12345, 730);

    mgr.add_friend(Friend::new(111, "Alice"));
    mgr.set_friend_game(111, 730);

    let info = mgr.get_friend_game_played(111);
    assert!(info.is_some());
    assert_eq!(info.unwrap().app_id, 730);
}

#[test]
fn soc_004_friend_not_in_game() {
    let mut mgr = FriendsManager::new(12345, 730);

    mgr.add_friend(Friend::new(111, "Alice"));

    let info = mgr.get_friend_game_played(111);
    assert!(info.is_some());
    assert_eq!(info.unwrap().app_id, 0);
}

// =============================================================================
// SOC-005: Friend State
// Reference: https://partner.steamgames.com/doc/api/ISteamFriends#GetFriendPersonaState
// =============================================================================

#[test]
fn soc_005_friend_state() {
    let mut mgr = FriendsManager::new(12345, 730);

    mgr.add_friend(Friend::new(111, "Alice"));
    mgr.set_friend_state(111, PersonaState::Online);

    assert_eq!(mgr.get_friend_persona_state(111), PersonaState::Online);
}

#[test]
fn soc_005_friend_state_away() {
    let mut mgr = FriendsManager::new(12345, 730);

    mgr.add_friend(Friend::new(111, "Alice"));
    mgr.set_friend_state(111, PersonaState::Away);

    assert_eq!(mgr.get_friend_persona_state(111), PersonaState::Away);
    assert!(PersonaState::Away.is_online());
}

#[test]
fn soc_005_unknown_user_state() {
    let mgr = FriendsManager::new(12345, 730);

    assert_eq!(mgr.get_friend_persona_state(999), PersonaState::Offline);
}

// =============================================================================
// SOC-006: Friend Rich Presence
// Reference: https://partner.steamgames.com/doc/api/ISteamFriends#GetFriendRichPresence
// =============================================================================

#[test]
fn soc_006_friend_rich_presence() {
    let mut mgr = FriendsManager::new(12345, 730);

    mgr.add_friend(Friend::new(111, "Alice"));
    mgr.set_friend_rich_presence(111, "status", "In competitive match");

    assert_eq!(
        mgr.get_friend_rich_presence(111, "status"),
        Some("In competitive match")
    );
}

#[test]
fn soc_006_rich_presence_missing_key() {
    let mut mgr = FriendsManager::new(12345, 730);

    mgr.add_friend(Friend::new(111, "Alice"));

    assert_eq!(mgr.get_friend_rich_presence(111, "missing"), None);
}

// =============================================================================
// SOC-007: Invite Friend
// Reference: https://partner.steamgames.com/doc/api/ISteamFriends#InviteUserToGame
// =============================================================================

#[test]
fn soc_007_invite_friend() {
    let mut mgr = FriendsManager::new(12345, 730);

    mgr.add_friend(Friend::new(111, "Alice"));
    mgr.set_friend_state(111, PersonaState::Online);

    let result = mgr.invite_user_to_game(111, "+connect 192.168.1.1:27015");
    assert_eq!(result, InviteResult::Sent);
}

#[test]
fn soc_007_invite_not_friend() {
    let mut mgr = FriendsManager::new(12345, 730);

    let result = mgr.invite_user_to_game(999, "+connect server");
    assert_eq!(result, InviteResult::NotFriend);
}

#[test]
fn soc_007_invite_blocked() {
    let mut mgr = FriendsManager::new(12345, 730);

    let mut friend = Friend::new(111, "Blocked");
    friend.relationship = FriendRelationship::Blocked;
    mgr.add_friend(friend);

    let result = mgr.invite_user_to_game(111, "+connect server");
    assert_eq!(result, InviteResult::Blocked);
}

#[test]
fn soc_007_invite_offline() {
    let mut mgr = FriendsManager::new(12345, 730);

    mgr.add_friend(Friend::new(111, "Alice"));
    // Friend is offline by default.

    let result = mgr.invite_user_to_game(111, "+connect server");
    assert_eq!(result, InviteResult::Offline);
}

// =============================================================================
// SOC-009: Block Player
// =============================================================================

#[test]
fn soc_009_block_player() {
    let mut mgr = FriendsManager::new(12345, 730);

    mgr.add_friend(Friend::new(111, "Alice"));
    assert_eq!(mgr.get_friend_relationship(111), FriendRelationship::Friend);

    mgr.block_user(111);
    assert_eq!(mgr.get_friend_relationship(111), FriendRelationship::Blocked);
}

#[test]
fn soc_009_unblock_player() {
    let mut mgr = FriendsManager::new(12345, 730);

    let mut friend = Friend::new(111, "Alice");
    friend.relationship = FriendRelationship::Blocked;
    mgr.add_friend(friend);

    mgr.unblock_user(111);
    assert_eq!(mgr.get_friend_relationship(111), FriendRelationship::Friend);
}

// =============================================================================
// SOC-010: Recently Played
// Reference: https://partner.steamgames.com/doc/api/ISteamFriends#GetCoplayFriendCount
// =============================================================================

#[test]
fn soc_010_recently_played() {
    let mut mgr = FriendsManager::new(12345, 730);

    mgr.add_coplay(CoplayFriend {
        steam_id: 111,
        time: 1000,
        app_id: 730,
    });
    mgr.add_coplay(CoplayFriend {
        steam_id: 222,
        time: 2000,
        app_id: 730,
    });

    assert_eq!(mgr.get_coplay_friend_count(), 2);

    let coplay = mgr.get_coplay_friend(0);
    assert!(coplay.is_some());
}

// =============================================================================
// SOC-CLAN-001: Get Clan Count
// Reference: https://partner.steamgames.com/doc/api/ISteamFriends#GetClanCount
// =============================================================================

#[test]
fn soc_clan_001_get_clan_count() {
    let mut mgr = FriendsManager::new(12345, 730);

    mgr.add_clan(Clan::new(1001, "Valve", "VALVe"));
    mgr.add_clan(Clan::new(1002, "Steam Community", "STEAM"));

    assert_eq!(mgr.get_clan_count(), 2);
}

// =============================================================================
// SOC-CLAN-002: Get Clan Details
// Reference: https://partner.steamgames.com/doc/api/ISteamFriends#GetClanByIndex
// Reference: https://partner.steamgames.com/doc/api/ISteamFriends#GetClanName
// =============================================================================

#[test]
fn soc_clan_002_get_clan_details() {
    let mut mgr = FriendsManager::new(12345, 730);

    mgr.add_clan(Clan::new(1001, "Valve Corporation", "VALVe"));

    let clan_id = mgr.get_clan_by_index(0);
    assert_eq!(clan_id, Some(1001));

    assert_eq!(mgr.get_clan_name(1001), Some("Valve Corporation"));
    assert_eq!(mgr.get_clan_tag(1001), Some("VALVe"));
}

// =============================================================================
// SOC-CLAN-003: Clan Officer List
// Reference: https://partner.steamgames.com/doc/api/ISteamFriends#GetClanOfficerCount
// =============================================================================

#[test]
fn soc_clan_003_clan_officers() {
    let mut mgr = FriendsManager::new(12345, 730);

    let mut clan = Clan::new(1001, "Test Clan", "TEST");
    clan.officer_count = 5;
    mgr.add_clan(clan);

    assert_eq!(mgr.get_clan_officer_count(1001), 5);
}

// =============================================================================
// SOC-CLAN-004: Clan Activity
// Reference: https://partner.steamgames.com/doc/api/ISteamFriends#GetClanActivityCounts
// =============================================================================

#[test]
fn soc_clan_004_clan_activity() {
    let mut mgr = FriendsManager::new(12345, 730);

    let mut clan = Clan::new(1001, "Active Clan", "ACT");
    clan.online_count = 100;
    clan.in_game_count = 50;
    clan.chatting_count = 25;
    mgr.add_clan(clan);

    let activity = mgr.get_clan_activity_counts(1001);
    assert_eq!(activity, Some((100, 50, 25)));
}

// =============================================================================
// Additional Tests
// =============================================================================

#[test]
fn filter_friends_by_flag() {
    let mut mgr = FriendsManager::new(12345, 730);

    let mut friend1 = Friend::new(111, "Friend");
    friend1.relationship = FriendRelationship::Friend;
    mgr.add_friend(friend1);

    let mut friend2 = Friend::new(222, "Blocked");
    friend2.relationship = FriendRelationship::Blocked;
    mgr.add_friend(friend2);

    let mut friend3 = Friend::new(333, "Pending");
    friend3.relationship = FriendRelationship::RequestRecipient;
    mgr.add_friend(friend3);

    assert_eq!(mgr.get_friend_count(FriendFlags::IMMEDIATE), 1);
    assert_eq!(mgr.get_friend_count(FriendFlags::BLOCKED), 1);
    assert_eq!(mgr.get_friend_count(FriendFlags::ALL), 3);
}

#[test]
fn persona_state_is_online() {
    assert!(!PersonaState::Offline.is_online());
    assert!(PersonaState::Online.is_online());
    assert!(PersonaState::Busy.is_online());
    assert!(PersonaState::Away.is_online());
    assert!(PersonaState::Snooze.is_online());
    assert!(!PersonaState::Invisible.is_online());
}

#[test]
fn friend_is_in_game() {
    let mut friend = Friend::new(111, "Alice");
    assert!(!friend.is_in_game());

    friend.game_info.app_id = 730;
    assert!(friend.is_in_game());
    assert!(friend.is_playing_game(730));
    assert!(!friend.is_playing_game(440));
}
