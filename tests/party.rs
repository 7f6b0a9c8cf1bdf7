use engine::party::{Party, PartyError, PartyManager, PartyState};
use engine::steam_id::SteamId;

fn test_steam_id(n: u32) -> SteamId {
    SteamId::from_account_id(n)
}

// =============================================================================
// PTY-001: Create Party
// =============================================================================

#[test]
fn pty_001_create_party() {
    let mut manager = PartyManager::new();

    let leader = test_steam_id(1);
    let party_id = manager.create_party(leader, "Leader", 5).unwrap();

    assert!(party_id.is_valid());

    let party = manager.get_party(party_id).unwrap();
    assert_eq!(party.leader, leader);
    assert_eq!(party.member_count(), 1);
    assert!(party.is_leader(leader));
}

// =============================================================================
// PTY-002: Invite to Party
// =============================================================================

#[test]
fn pty_002_send_invite() {
    let mut manager = PartyManager::new();

    let leader = test_steam_id(1);
    let invitee = test_steam_id(2);

    let party_id = manager.create_party(leader, "Leader", 5).unwrap();
    manager.send_invite(party_id, invitee).unwrap();

    let party = manager.get_party(party_id).unwrap();
    assert_eq!(party.pending_invite_count(), 1);

    let invites = manager.get_invites(invitee);
    assert_eq!(invites.len(), 1);
}

// =============================================================================
// PTY-003: Accept Invite
// =============================================================================

#[test]
fn pty_003_accept_invite() {
    let mut manager = PartyManager::new();

    let leader = test_steam_id(1);
    let member = test_steam_id(2);

    let party_id = manager.create_party(leader, "Leader", 5).unwrap();
    manager.send_invite(party_id, member).unwrap();
    manager.accept_invite(member, "Member", party_id).unwrap();

    let party = manager.get_party(party_id).unwrap();
    assert_eq!(party.member_count(), 2);
    assert!(party.is_member(member));
}

// =============================================================================
// PTY-004: Decline Invite
// =============================================================================

#[test]
fn pty_004_decline_invite() {
    let mut manager = PartyManager::new();

    let leader = test_steam_id(1);
    let invitee = test_steam_id(2);

    let party_id = manager.create_party(leader, "Leader", 5).unwrap();
    manager.send_invite(party_id, invitee).unwrap();
    manager.decline_invite(invitee, party_id).unwrap();

    let party = manager.get_party(party_id).unwrap();
    assert_eq!(party.pending_invite_count(), 0);
    assert!(!party.is_member(invitee));
}

// =============================================================================
// PTY-005: Leave Party
// =============================================================================

#[test]
fn pty_005_leave_party() {
    let mut manager = PartyManager::new();

    let leader = test_steam_id(1);
    let member = test_steam_id(2);

    let party_id = manager.create_party(leader, "Leader", 5).unwrap();
    manager.send_invite(party_id, member).unwrap();
    manager.accept_invite(member, "Member", party_id).unwrap();

    manager.leave_party(member).unwrap();

    let party = manager.get_party(party_id).unwrap();
    assert_eq!(party.member_count(), 1);
    assert!(!party.is_member(member));
}

// =============================================================================
// PTY-006: Kick from Party
// =============================================================================

#[test]
fn pty_006_kick_member() {
    let mut manager = PartyManager::new();

    let leader = test_steam_id(1);
    let member = test_steam_id(2);

    let party_id = manager.create_party(leader, "Leader", 5).unwrap();
    manager.send_invite(party_id, member).unwrap();
    manager.accept_invite(member, "Member", party_id).unwrap();

    manager.kick_player(leader, member).unwrap();

    let party = manager.get_party(party_id).unwrap();
    assert_eq!(party.member_count(), 1);
    assert!(!party.is_member(member));
}

#[test]
fn pty_006_non_leader_cannot_kick() {
    let mut manager = PartyManager::new();

    let leader = test_steam_id(1);
    let member1 = test_steam_id(2);
    let member2 = test_steam_id(3);

    let party_id = manager.create_party(leader, "Leader", 5).unwrap();
    manager.send_invite(party_id, member1).unwrap();
    manager.accept_invite(member1, "Member1", party_id).unwrap();
    manager.send_invite(party_id, member2).unwrap();
    manager.accept_invite(member2, "Member2", party_id).unwrap();

    // member1 tries to kick member2 - should fail
    let result = manager.kick_player(member1, member2);
    assert_eq!(result, Err(PartyError::NotLeader));
}

// =============================================================================
// PTY-007: Party Leader Change
// =============================================================================

#[test]
fn pty_007_transfer_leadership() {
    let mut manager = PartyManager::new();

    let leader = test_steam_id(1);
    let member = test_steam_id(2);

    let party_id = manager.create_party(leader, "Leader", 5).unwrap();
    manager.send_invite(party_id, member).unwrap();
    manager.accept_invite(member, "Member", party_id).unwrap();

    let party = manager.get_party_mut(party_id).unwrap();
    party.transfer_leadership(leader, member).unwrap();

    assert_eq!(party.leader, member);
    assert!(party.is_leader(member));
    assert!(!party.is_leader(leader));
}

#[test]
fn pty_007_auto_transfer_on_leave() {
    let mut manager = PartyManager::new();

    let leader = test_steam_id(1);
    let member = test_steam_id(2);

    let party_id = manager.create_party(leader, "Leader", 5).unwrap();
    manager.send_invite(party_id, member).unwrap();
    manager.accept_invite(member, "Member", party_id).unwrap();

    // Leader leaves
    manager.leave_party(leader).unwrap();

    let party = manager.get_party(party_id).unwrap();
    assert_eq!(party.leader, member);
}

// =============================================================================
// PTY-008: Party Auto-Disband
// =============================================================================

#[test]
fn pty_008_auto_disband() {
    let mut manager = PartyManager::new();

    let leader = test_steam_id(1);
    let party_id = manager.create_party(leader, "Leader", 5).unwrap();

    manager.leave_party(leader).unwrap();

    assert!(manager.get_party(party_id).is_none());
}

// =============================================================================
// PTY-009: Party Size Limit
// =============================================================================

#[test]
fn pty_009_size_limit() {
    let mut manager = PartyManager::new();

    let leader = test_steam_id(1);
    let party_id = manager.create_party(leader, "Leader", 2).unwrap();

    manager.send_invite(party_id, test_steam_id(2)).unwrap();
    manager.accept_invite(test_steam_id(2), "M2", party_id).unwrap();

    // Party is now full
    let result = manager.send_invite(party_id, test_steam_id(3));
    assert_eq!(result, Err(PartyError::PartyFull));
}

// =============================================================================
// PTY-SYNC-002: Ready State
// =============================================================================

#[test]
fn pty_sync_002_ready_state() {
    let mut manager = PartyManager::new();

    let leader = test_steam_id(1);
    let member = test_steam_id(2);

    let party_id = manager.create_party(leader, "Leader", 5).unwrap();
    manager.send_invite(party_id, member).unwrap();
    manager.accept_invite(member, "Member", party_id).unwrap();

    let party = manager.get_party_mut(party_id).unwrap();

    // Initially not ready
    assert!(!party.all_ready());
    assert_eq!(party.state, PartyState::Idle);

    // Both ready up
    party.set_ready(leader, true).unwrap();
    party.set_ready(member, true).unwrap();

    assert!(party.all_ready());
    assert_eq!(party.state, PartyState::Ready);
}

#[test]
fn pty_sync_002_unready() {
    let mut manager = PartyManager::new();

    let leader = test_steam_id(1);
    let party_id = manager.create_party(leader, "Leader", 5).unwrap();

    let party = manager.get_party_mut(party_id).unwrap();
    party.set_ready(leader, true).unwrap();
    assert_eq!(party.state, PartyState::Ready);

    party.set_ready(leader, false).unwrap();
    assert_eq!(party.state, PartyState::Idle);
}

// =============================================================================
// Additional Tests
// =============================================================================

#[test]
fn party_metadata() {
    let mut manager = PartyManager::new();

    let leader = test_steam_id(1);
    let party_id = manager.create_party(leader, "Leader", 5).unwrap();

    let party = manager.get_party_mut(party_id).unwrap();
    party.set_metadata("game_mode", "competitive");
    party.set_metadata("map", "de_dust2");

    assert_eq!(party.get_metadata("game_mode"), Some("competitive"));
    assert_eq!(party.get_metadata("map"), Some("de_dust2"));
}

#[test]
fn cannot_join_while_in_party() {
    let mut manager = PartyManager::new();

    let leader1 = test_steam_id(1);
    let leader2 = test_steam_id(2);
    let member = test_steam_id(3);

    let party1 = manager.create_party(leader1, "Leader1", 5).unwrap();
    let party2 = manager.create_party(leader2, "Leader2", 5).unwrap();

    manager.send_invite(party1, member).unwrap();
    manager.accept_invite(member, "Member", party1).unwrap();

    manager.send_invite(party2, member).unwrap();
    // Accepting party2 should leave party1
    manager.accept_invite(member, "Member", party2).unwrap();

    assert!(!manager.get_party(party1).unwrap().is_member(member));
    assert!(manager.get_party(party2).unwrap().is_member(member));
}

#[test]
fn far_expiry_does_not_panic() {
    let invite = engine::party::PartyInvite::new(
        engine::party::PartyId::new(1),
        SteamId::from_account_id(1),
        SteamId::from_account_id(2),
        std::time::Duration::MAX,
    );
    assert!(!invite.is_expired());
}
