use engine::chat::{ChatChannel, ChatManager, ChatResult, MAX_MESSAGE_LENGTH, ProfanityFilter, RateLimiter};
use engine::steam_id::SteamId;
use std::time::Duration;

fn test_steam_id(n: u32) -> SteamId {
    SteamId::from_account_id(n)
}

// =============================================================================
// CHAT-001: Global Chat
// Reference: https://developer.valvesoftware.com/wiki/Chat
// =============================================================================

#[test]
fn chat_001_global_broadcast() {
    let mut manager = ChatManager::new(100);
    
    let sender = test_steam_id(1);
    let receiver1 = test_steam_id(2);
    let receiver2 = test_steam_id(3);
    
    manager.add_player(sender);
    manager.add_player(receiver1);
    manager.add_player(receiver2);
    
    let recipients = manager.send_message(
        sender,
        "Player1",
        ChatChannel::Global,
        "Hello everyone!"
    ).unwrap();
    
    assert_eq!(recipients.len(), 2);
    assert!(recipients.contains(&receiver1));
    assert!(recipients.contains(&receiver2));
}

// =============================================================================
// CHAT-002: Team Chat
// =============================================================================

#[test]
fn chat_002_team_only() {
    let mut manager = ChatManager::new(100);
    
    let sender = test_steam_id(1);
    let teammate = test_steam_id(2);
    let enemy = test_steam_id(3);
    
    manager.add_player(sender);
    manager.add_player(teammate);
    manager.add_player(enemy);
    
    manager.set_player_team(sender, Some(1));
    manager.set_player_team(teammate, Some(1));
    manager.set_player_team(enemy, Some(2));
    
    let recipients = manager.send_message(
        sender,
        "Player1",
        ChatChannel::Team(1),
        "Team message"
    ).unwrap();
    
    assert_eq!(recipients.len(), 1);
    assert!(recipients.contains(&teammate));
    assert!(!recipients.contains(&enemy));
}

// =============================================================================
// CHAT-003: Squad Chat
// =============================================================================

#[test]
fn chat_003_squad_only() {
    let mut manager = ChatManager::new(100);
    
    let sender = test_steam_id(1);
    let squadmate = test_steam_id(2);
    let other = test_steam_id(3);
    
    manager.add_player(sender);
    manager.add_player(squadmate);
    manager.add_player(other);
    
    manager.set_player_squad(sender, Some(100));
    manager.set_player_squad(squadmate, Some(100));
    manager.set_player_squad(other, Some(200));
    
    let recipients = manager.send_message(
        sender,
        "Player1",
        ChatChannel::Squad(100),
        "Squad message"
    ).unwrap();
    
    assert_eq!(recipients.len(), 1);
    assert!(recipients.contains(&squadmate));
}

// =============================================================================
// CHAT-004: Private Message
// =============================================================================

#[test]
fn chat_004_private_message() {
    let mut manager = ChatManager::new(100);
    
    let sender = test_steam_id(1);
    let recipient = test_steam_id(2);
    let other = test_steam_id(3);
    
    manager.add_player(sender);
    manager.add_player(recipient);
    manager.add_player(other);
    
    let recipients = manager.send_message(
        sender,
        "Player1",
        ChatChannel::Private(recipient),
        "Private message"
    ).unwrap();
    
    assert_eq!(recipients.len(), 1);
    assert!(recipients.contains(&recipient));
    assert!(!recipients.contains(&other));
}

// =============================================================================
// CHAT-006: Message Length Limit
// =============================================================================

#[test]
fn chat_006_message_length_limit() {
    let mut manager = ChatManager::new(100);
    let sender = test_steam_id(1);
    manager.add_player(sender);
    
    let long_message = "x".repeat(MAX_MESSAGE_LENGTH + 1);
    
    let result = manager.send_message(
        sender,
        "Player1",
        ChatChannel::Global,
        &long_message
    );
    
    assert_eq!(result, Err(ChatResult::MessageTooLong));
}

#[test]
fn chat_006_max_length_accepted() {
    let mut manager = ChatManager::new(100);
    let sender = test_steam_id(1);
    manager.add_player(sender);
    
    let max_message = "x".repeat(MAX_MESSAGE_LENGTH);
    
    let result = manager.send_message(
        sender,
        "Player1",
        ChatChannel::Global,
        &max_message
    );
    
    assert!(result.is_ok());
}

// =============================================================================
// CHAT-007: Rate Limiting
// =============================================================================

#[test]
fn chat_007_rate_limiting() {
    let mut limiter = RateLimiter::new(3, Duration::from_millis(100));
    
    // Send 3 messages (should succeed)
    assert!(limiter.record_message());
    assert!(limiter.record_message());
    assert!(limiter.record_message());
    
    // 4th message should fail
    assert!(!limiter.record_message());
    assert!(!limiter.can_send());
}


#[test]
fn chat_007_rate_limit_remaining() {
    let limiter = RateLimiter::new(5, Duration::from_secs(10));
    assert_eq!(limiter.remaining(), 5);
}

// =============================================================================
// CHAT-008: Mute Player
// =============================================================================

#[test]
fn chat_008_player_mute() {
    let mut manager = ChatManager::new(100);
    
    let sender = test_steam_id(1);
    let receiver = test_steam_id(2);
    
    manager.add_player(sender);
    manager.add_player(receiver);
    
    // Receiver mutes sender
    manager.get_player_mut(receiver).unwrap().mute_player(sender);
    
    let recipients = manager.send_message(
        sender,
        "Player1",
        ChatChannel::Global,
        "Hello"
    ).unwrap();
    
    // Receiver should not receive the message
    assert!(!recipients.contains(&receiver));
}

#[test]
fn chat_008_unmute_player() {
    let mut manager = ChatManager::new(100);
    
    let sender = test_steam_id(1);
    let receiver = test_steam_id(2);
    
    manager.add_player(sender);
    manager.add_player(receiver);
    
    // Mute then unmute
    manager.get_player_mut(receiver).unwrap().mute_player(sender);
    manager.get_player_mut(receiver).unwrap().unmute_player(sender);
    
    let recipients = manager.send_message(
        sender,
        "Player1",
        ChatChannel::Global,
        "Hello"
    ).unwrap();
    
    // Receiver should receive the message now
    assert!(recipients.contains(&receiver));
}

// =============================================================================
// CHAT-MOD-003: Admin Mute
// =============================================================================

#[test]
fn chat_mod_003_admin_mute() {
    let mut manager = ChatManager::new(100);
    let player = test_steam_id(1);
    manager.add_player(player);
    
    // Admin mutes player
    manager.admin_mute(player, None);
    
    let result = manager.send_message(
        player,
        "Player1",
        ChatChannel::Global,
        "Test"
    );
    
    assert_eq!(result, Err(ChatResult::Muted));
}


#[test]
fn chat_mod_003_admin_unmute() {
    let mut manager = ChatManager::new(100);
    let player = test_steam_id(1);
    manager.add_player(player);
    
    manager.admin_mute(player, None);
    manager.admin_unmute(player);
    
    let result = manager.send_message(player, "Player1", ChatChannel::Global, "Test");
    assert!(result.is_ok());
}

// =============================================================================
// CHAT-010: Chat History
// =============================================================================

#[test]
fn chat_010_history() {
    let mut manager = ChatManager::new(5);
    let sender = test_steam_id(1);
    manager.add_player(sender);
    
    for i in 0..3 {
        manager.send_message(sender, "Player1", ChatChannel::Global, &format!("Message {}", i)).unwrap();
    }
    
    let history = manager.get_history(10);
    assert_eq!(history.len(), 3);
}

#[test]
fn chat_010_history_limit() {
    let mut manager = ChatManager::new(3);
    let sender = test_steam_id(1);
    manager.add_player(sender);
    
    for i in 0..5 {
        manager.send_message(sender, "Player1", ChatChannel::Global, &format!("Message {}", i)).unwrap();
    }
    
    let history = manager.get_history(10);
    assert_eq!(history.len(), 3); // Limited to max_history
}

// =============================================================================
// Profanity Filter Tests
// =============================================================================

#[test]
fn profanity_filter_basic() {
    let mut filter = ProfanityFilter::new();
    filter.add_word("bad");
    
    let result = filter.filter("This is a bad word");
    assert_eq!(result, "This is a *** word");
}

#[test]
fn profanity_filter_detection() {
    let mut filter = ProfanityFilter::new();
    filter.add_word("blocked");
    
    assert!(filter.contains_blocked("This is blocked content"));
    assert!(!filter.contains_blocked("This is fine"));
}

#[test]
fn profanity_ignores_case() {
    let mut filter = ProfanityFilter::new();
    filter.add_word("BaD");
    assert!(filter.contains_blocked("so BAD here"));
    assert_eq!(filter.filter("Bad and bad"), "*** and ***");
    assert_eq!(filter.filter("fine"), "fine");
}

#[test]
fn muted_sender_and_masking() {
    let mut mgr = ChatManager::new(10);
    let a = SteamId::from_account_id(1);
    let b = SteamId::from_account_id(2);
    mgr.add_player(a);
    mgr.add_player(b);
    assert!(mgr.admin_mute(a, None));
    assert_eq!(mgr.send_message(a, "A", ChatChannel::Global, "hi"), Err(ChatResult::Muted));
    assert!(mgr.get_history(10).is_empty());
    assert!(mgr.admin_mute(b, Some(Duration::MAX)));
    let mut filter = ProfanityFilter::new();
    filter.add_word("ab");
    filter.add_word("bc");
    assert_eq!(filter.filter("xABCx"), "x***x");
    let limiter = RateLimiter::new(0, Duration::MAX);
    assert!(limiter.time_until_allowed().is_none());
}
