use engine::auth::{AuthSession, AuthSessionResponse, AuthSessionState, AuthTicket, AuthTicketHandle, MAX_AUTH_TICKET_SIZE, MockAuthProvider, VacBanStatus, VacModule};
use engine::steam_id::SteamId;
use std::time::Instant;

// =============================================================================
// AUTH-001: Valid Steam Login
// Reference: https://partner.steamgames.com/doc/features/auth
// =============================================================================

#[test]
fn auth_001_valid_ticket_generation() {
    let mut provider = MockAuthProvider::new(730); // CS:GO app ID
    let steam_id = SteamId::from_account_id(12345);

    let ticket = provider.get_auth_ticket(steam_id);

    assert!(ticket.handle.is_valid());
    assert!(ticket.is_valid_size());
    assert_eq!(ticket.owner, steam_id);
    assert_eq!(ticket.app_id, 730);
}

#[test]
fn auth_001_ticket_contains_owner_info() {
    let mut provider = MockAuthProvider::new(730);
    let steam_id = SteamId::from_account_id(12345);

    let ticket = provider.get_auth_ticket(steam_id);

    // Ticket data should embed the Steam ID
    let embedded_id = u64::from_le_bytes(ticket.data[4..12].try_into().unwrap());
    assert_eq!(embedded_id, steam_id.as_u64());
}

// =============================================================================
// AUTH-002: Invalid Credentials Rejection
// Reference: https://partner.steamgames.com/doc/api/steam_api#EAuthSessionResponse
// =============================================================================

#[test]
fn auth_002_wrong_owner_rejected() {
    let mut provider = MockAuthProvider::new(730);
    let real_owner = SteamId::from_account_id(12345);
    let fake_owner = SteamId::from_account_id(99999);

    let ticket = provider.get_auth_ticket(real_owner);

    // Validate with wrong owner
    let response = provider.validate_ticket(&ticket, fake_owner);
    assert_eq!(response, AuthSessionResponse::AuthTicketInvalid);
}

#[test]
fn auth_002_invalid_handle_rejected() {
    let provider = MockAuthProvider::new(730);
    let steam_id = SteamId::from_account_id(12345);

    let ticket = AuthTicket {
        handle: AuthTicketHandle::invalid(),
        data: vec![0; 64],
        owner: steam_id,
        created_at: Instant::now(),
        app_id: 730,
    };

    let response = provider.validate_ticket(&ticket, steam_id);
    assert_eq!(response, AuthSessionResponse::AuthTicketInvalid);
}

// =============================================================================
// AUTH-004: Auth Ticket Generation
// Reference: https://partner.steamgames.com/doc/api/ISteamUser#GetAuthSessionTicket
// =============================================================================

#[test]
fn auth_004_ticket_size_within_limits() {
    let mut provider = MockAuthProvider::new(730);
    let steam_id = SteamId::from_account_id(12345);

    let ticket = provider.get_auth_ticket(steam_id);

    assert!(ticket.data.len() <= MAX_AUTH_TICKET_SIZE);
    assert!(!ticket.data.is_empty());
}

#[test]
fn auth_004_unique_handles() {
    let mut provider = MockAuthProvider::new(730);
    let steam_id = SteamId::from_account_id(12345);

    let ticket1 = provider.get_auth_ticket(steam_id);
    let ticket2 = provider.get_auth_ticket(steam_id);

    assert_ne!(ticket1.handle.as_u32(), ticket2.handle.as_u32());
}

// =============================================================================
// AUTH-005: Auth Ticket Validation
// Reference: https://partner.steamgames.com/doc/api/ISteamUser#BeginAuthSession
// =============================================================================

#[test]
fn auth_005_valid_ticket_accepted() {
    let mut provider = MockAuthProvider::new(730);
    let steam_id = SteamId::from_account_id(12345);

    let ticket = provider.get_auth_ticket(steam_id);
    let response = provider.validate_ticket(&ticket, steam_id);

    assert_eq!(response, AuthSessionResponse::Accepted);
    assert!(response.is_success());
}

#[test]
fn auth_005_wrong_app_rejected() {
    let mut provider = MockAuthProvider::new(730);
    let steam_id = SteamId::from_account_id(12345);

    let mut ticket = provider.get_auth_ticket(steam_id);
    ticket.app_id = 440; // Wrong app ID

    let response = provider.validate_ticket(&ticket, steam_id);
    assert_eq!(response, AuthSessionResponse::NoLicenseOrExpired);
}

// =============================================================================
// AUTH-007: Auth Timeout Handling
// =============================================================================

#[test]
fn auth_007_session_timeout_recovery() {
    let steam_id = SteamId::from_account_id(12345);
    let mut session = AuthSession::new(steam_id);

    session.begin_validation();
    session.on_validation_response(AuthSessionResponse::VACCheckTimedOut);

    assert!(session.should_retry());
    assert!(session.last_response.unwrap().is_recoverable());
}

#[test]
fn auth_007_max_retry_limit() {
    let steam_id = SteamId::from_account_id(12345);
    let mut session = AuthSession::new(steam_id);

    // Simulate 3 failed attempts
    for _ in 0..3 {
        session.begin_validation();
        session.on_validation_response(AuthSessionResponse::VACCheckTimedOut);
    }

    assert!(!session.should_retry()); // No more retries after 3
}

// =============================================================================
// AUTH-009: Auth Callback Processing
// Reference: https://partner.steamgames.com/doc/api/ISteamUser#ValidateAuthTicketResponse_t
// =============================================================================

#[test]
fn auth_009_response_state_transitions() {
    let steam_id = SteamId::from_account_id(12345);
    let mut session = AuthSession::new(steam_id);

    assert_eq!(session.state, AuthSessionState::NotStarted);

    session.begin_validation();
    assert_eq!(session.state, AuthSessionState::Pending);

    session.on_validation_response(AuthSessionResponse::Accepted);
    assert_eq!(session.state, AuthSessionState::Validated);
    assert!(session.is_valid());
}

#[test]
fn auth_009_failed_response_handling() {
    let steam_id = SteamId::from_account_id(12345);
    let mut session = AuthSession::new(steam_id);

    session.begin_validation();
    session.on_validation_response(AuthSessionResponse::VACBanned);

    assert_eq!(session.state, AuthSessionState::Failed);
    assert!(!session.is_valid());
    assert!(session.last_response.unwrap().is_permanent_rejection());
}

// =============================================================================
// Response Code Coverage
// =============================================================================

#[test]
fn response_code_messages() {
    // Ensure all response codes have meaningful messages
    let responses = [
        AuthSessionResponse::Accepted,
        AuthSessionResponse::UserNotConnectedToSteam,
        AuthSessionResponse::NoLicenseOrExpired,
        AuthSessionResponse::VACBanned,
        AuthSessionResponse::LoggedInElsewhere,
        AuthSessionResponse::VACCheckTimedOut,
        AuthSessionResponse::AuthTicketCanceled,
        AuthSessionResponse::AuthTicketInvalidAlreadyUsed,
        AuthSessionResponse::AuthTicketInvalid,
        AuthSessionResponse::PublisherIssuedBan,
    ];

    for response in responses {
        assert!(!response.message().is_empty());
    }
}

#[test]
fn response_code_classification() {
    assert!(AuthSessionResponse::Accepted.is_success());
    assert!(!AuthSessionResponse::VACBanned.is_success());

    assert!(AuthSessionResponse::VACBanned.is_permanent_rejection());
    assert!(AuthSessionResponse::PublisherIssuedBan.is_permanent_rejection());
    assert!(!AuthSessionResponse::VACCheckTimedOut.is_permanent_rejection());

    assert!(AuthSessionResponse::VACCheckTimedOut.is_recoverable());
    assert!(AuthSessionResponse::LoggedInElsewhere.is_recoverable());
    assert!(!AuthSessionResponse::VACBanned.is_recoverable());
}

// =============================================================================
// VAC-001: VAC Module Load
// Reference: https://partner.steamgames.com/doc/features/anticheat
// =============================================================================

#[test]
fn vac_001_module_initialization() {
    let vac = VacModule::new(true);
    assert!(vac.is_enabled());
    assert!(vac.is_initialized());
}

#[test]
fn vac_001_disabled_module() {
    let vac = VacModule::new(false);
    assert!(!vac.is_enabled());
}

// =============================================================================
// VAC-002: VAC Secure Mode Flag
// =============================================================================

#[test]
fn vac_002_secure_mode_flag() {
    let vac = VacModule::new(true);
    assert!(vac.is_secure_server());

    let insecure = VacModule::new(false);
    assert!(!insecure.is_secure_server());
}

// =============================================================================
// VAC-003: VAC Ban Check
// =============================================================================

#[test]
fn vac_003_ban_status_query() {
    let mut vac = VacModule::new(true);
    let player = SteamId::from_account_id(12345);

    // Player not banned by default
    assert_eq!(vac.get_ban_status(player), VacBanStatus::Clean);

    // Add a ban
    vac.add_ban(player, VacBanStatus::Banned);
    assert_eq!(vac.get_ban_status(player), VacBanStatus::Banned);
}

// =============================================================================
// VAC-004: VAC Ban Rejection
// =============================================================================

#[test]
fn vac_004_banned_player_rejected() {
    let mut vac = VacModule::new(true);
    let player = SteamId::from_account_id(12345);

    vac.add_ban(player, VacBanStatus::Banned);
    let result = vac.validate_player(player);

    assert!(!result.allowed);
    assert_eq!(result.response, AuthSessionResponse::VACBanned);
}

#[test]
fn vac_004_clean_player_accepted() {
    let vac = VacModule::new(true);
    let player = SteamId::from_account_id(12345);

    let result = vac.validate_player(player);
    assert!(result.allowed);
    assert_eq!(result.response, AuthSessionResponse::Accepted);
}

// =============================================================================
// VAC-005: Insecure Server Bypass
// =============================================================================

#[test]
fn vac_005_insecure_allows_banned() {
    let mut vac = VacModule::new(false); // Insecure
    let player = SteamId::from_account_id(12345);

    vac.add_ban(player, VacBanStatus::Banned);
    let result = vac.validate_player(player);

    // Insecure server allows banned players
    assert!(result.allowed);
}

// =============================================================================
// VAC-010: Real-time VAC Status
// =============================================================================

#[test]
fn vac_010_mid_session_ban() {
    let mut vac = VacModule::new(true);
    let player = SteamId::from_account_id(12345);

    // Initial check - clean
    let initial = vac.validate_player(player);
    assert!(initial.allowed);

    // Ban is added during session
    vac.add_ban(player, VacBanStatus::Banned);

    // Re-check should detect ban
    let recheck = vac.validate_player(player);
    assert!(!recheck.allowed);
}

// =============================================================================
// TKT-002: Ticket Size Bounds
// =============================================================================

#[test]
fn tkt_002_empty_ticket_invalid() {
    let steam_id = SteamId::from_account_id(12345);
    let ticket = AuthTicket {
        handle: AuthTicketHandle::new(1),
        data: vec![], // Empty
        owner: steam_id,
        created_at: Instant::now(),
        app_id: 730,
    };
    assert!(!ticket.is_valid_size());
}

#[test]
fn tkt_002_oversized_ticket_invalid() {
    let steam_id = SteamId::from_account_id(12345);
    let ticket = AuthTicket {
        handle: AuthTicketHandle::new(1),
        data: vec![0; MAX_AUTH_TICKET_SIZE + 1], // Too large
        owner: steam_id,
        created_at: Instant::now(),
        app_id: 730,
    };
    assert!(!ticket.is_valid_size());
}

#[test]
fn tkt_002_max_size_valid() {
    let steam_id = SteamId::from_account_id(12345);
    let ticket = AuthTicket {
        handle: AuthTicketHandle::new(1),
        data: vec![0; MAX_AUTH_TICKET_SIZE], // Exactly max
        owner: steam_id,
        created_at: Instant::now(),
        app_id: 730,
    };
    assert!(ticket.is_valid_size());
}

// =============================================================================
// TKT-005: Ticket Cancellation
// =============================================================================

#[test]
fn tkt_005_ticket_cancellation() {
    let mut provider = MockAuthProvider::new(730);
    let steam_id = SteamId::from_account_id(12345);

    let ticket = provider.get_auth_ticket(steam_id);
    let handle = ticket.handle;

    // Ticket should be valid initially
    assert!(handle.is_valid());

    // Cancel the ticket
    provider.cancel_ticket(handle);

    // Cancelled tickets should fail validation
    let result = provider.validate_ticket_by_handle(handle);
    assert_eq!(result, AuthSessionResponse::AuthTicketCanceled);
}

// =============================================================================
// TKT-007: Multiple Tickets
// =============================================================================

#[test]
fn tkt_007_multiple_active_tickets() {
    let mut provider = MockAuthProvider::new(730);
    let steam_id = SteamId::from_account_id(12345);

    let ticket1 = provider.get_auth_ticket(steam_id);
    let ticket2 = provider.get_auth_ticket(steam_id);
    let ticket3 = provider.get_auth_ticket(steam_id);

    // All tickets should be valid and unique
    assert!(ticket1.handle.is_valid());
    assert!(ticket2.handle.is_valid());
    assert!(ticket3.handle.is_valid());

    assert_ne!(ticket1.handle, ticket2.handle);
    assert_ne!(ticket2.handle, ticket3.handle);

    // All should validate successfully
    assert_eq!(provider.validate_ticket(&ticket1, steam_id), AuthSessionResponse::Accepted);
    assert_eq!(provider.validate_ticket(&ticket2, steam_id), AuthSessionResponse::Accepted);
    assert_eq!(provider.validate_ticket(&ticket3, steam_id), AuthSessionResponse::Accepted);
}
