use engine::steam_id::{AccountType, SteamId, Universe};


// =============================================================================
// SID-001: SteamID64 Parsing
// Reference: https://developer.valvesoftware.com/wiki/SteamID
// =============================================================================

#[test]
fn sid_001_steamid64_parsing() {
    // Test valid 64-bit Steam IDs
    let id = SteamId::from_u64(76561198012345678);
    assert!(id.is_valid());
    assert_eq!(id.as_u64(), 76561198012345678);
    
    // Parse from string
    let parsed: SteamId = "76561198012345678".parse().unwrap();
    assert_eq!(parsed, id);
}

#[test]
fn sid_001_steamid64_components() {
    // Known Steam ID: 76561198012345678
    // Binary breakdown validates component extraction
    let id = SteamId::from_u64(76561198012345678);
    
    assert_eq!(id.account_id(), 52079950);
    assert_eq!(id.universe(), Universe::Public);
    assert_eq!(id.account_type(), AccountType::Individual);
    assert_eq!(id.instance(), 1); // Desktop
}

// =============================================================================
// SID-002: SteamID32 Conversion
// Reference: https://developer.valvesoftware.com/wiki/SteamID#Steam_ID_as_a_Steam_Community_ID
// =============================================================================

#[test]
fn sid_002_account_id_extraction() {
    let id = SteamId::from_u64(76561198012345678);
    let account_id = id.account_id();
    
    // Account ID should be the lower 32 bits
    assert_eq!(account_id, 52079950);
    
    // Reconstruct from account ID
    let reconstructed = SteamId::from_account_id(account_id);
    assert_eq!(reconstructed.account_id(), account_id);
}

#[test]
fn sid_002_roundtrip_conversion() {
    let start_id = SteamId::from_u64(76561198012345678);
    let account_id = start_id.account_id();
    let reconstructed = SteamId::from_account_id(account_id);
    
    // Account IDs should match
    assert_eq!(start_id.account_id(), reconstructed.account_id());
}

// =============================================================================
// SID-003: SteamID3 Format
// Reference: https://developer.valvesoftware.com/wiki/SteamID#Steam_ID_as_a_Steam_Community_ID
// =============================================================================

#[test]
fn sid_003_steamid3_format_individual() {
    let id = SteamId::from_account_id(52079950);
    let steam3 = id.to_steam3();
    
    // Format: [U:1:ACCOUNTID]
    assert_eq!(steam3, "[U:1:52079950]");
    
    // Parse back
    let parsed = SteamId::parse_steam3(&steam3).unwrap();
    assert_eq!(parsed.account_id(), id.account_id());
}

#[test]
fn sid_003_steamid3_format_with_instance() {
    // Create ID with non-default instance
    let id = SteamId::from_parts(12345, 2, AccountType::Individual, Universe::Public);
    let steam3 = id.to_steam3();
    
    // Should include instance
    assert_eq!(steam3, "[U:1:12345:2]");
    
    // Parse back
    let parsed = SteamId::parse_steam3(&steam3).unwrap();
    assert_eq!(parsed.instance(), 2);
}

#[test]
fn sid_003_steamid3_account_types() {
    // Test various account types
    let test_cases = [
        (AccountType::Individual, 'U'),
        (AccountType::GameServer, 'G'),
        (AccountType::AnonGameServer, 'A'),
        (AccountType::Clan, 'g'),
    ];
    
    for (account_type, expected_char) in test_cases {
        let id = SteamId::from_parts(12345, 1, account_type, Universe::Public);
        let steam3 = id.to_steam3();
        assert!(steam3.starts_with(&format!("[{}:", expected_char)));
    }
}

// =============================================================================
// SID-004: STEAM_X:Y:Z Format (Legacy)
// Reference: https://developer.valvesoftware.com/wiki/SteamID#As_Represented_in_Computer_Programs
// =============================================================================

#[test]
fn sid_004_steam2_format() {
    let id = SteamId::from_account_id(52079950);
    let steam2 = id.to_steam2();
    
    // STEAM_0:Y:Z where Y is lowest bit, Z is account/2
    // 52079950 = 26039975 * 2 + 0, so Y=0, Z=26039975
    assert_eq!(steam2, "STEAM_0:0:26039975");
}

#[test]
fn sid_004_steam2_odd_account() {
    let id = SteamId::from_account_id(52079951); // Odd number
    let steam2 = id.to_steam2();
    
    // 52079951 = 26039975 * 2 + 1, so Y=1, Z=26039975
    assert_eq!(steam2, "STEAM_0:1:26039975");
}

#[test]
fn sid_004_steam2_parse() {
    let parsed = SteamId::parse_steam2("STEAM_0:0:26039975").unwrap();
    assert_eq!(parsed.account_id(), 52079950);
    
    let parsed_odd = SteamId::parse_steam2("STEAM_0:1:26039975").unwrap();
    assert_eq!(parsed_odd.account_id(), 52079951);
}

#[test]
fn sid_004_steam2_roundtrip() {
    let start_id = SteamId::from_account_id(52079950);
    let steam2 = start_id.to_steam2();
    let parsed = SteamId::parse_steam2(&steam2).unwrap();
    
    assert_eq!(start_id.account_id(), parsed.account_id());
}

// =============================================================================
// SID-005: Account Type Detection
// Reference: https://developer.valvesoftware.com/wiki/SteamID#Types_of_Steam_Accounts
// =============================================================================

#[test]
fn sid_005_individual_account() {
    let id = SteamId::from_parts(12345, 1, AccountType::Individual, Universe::Public);
    assert!(id.is_individual());
    assert!(!id.is_game_server());
    assert!(!id.is_clan());
}

#[test]
fn sid_005_game_server_account() {
    let gs = SteamId::from_parts(12345, 1, AccountType::GameServer, Universe::Public);
    assert!(gs.is_game_server());
    assert!(!gs.is_individual());
    
    let anon_gs = SteamId::from_parts(12345, 1, AccountType::AnonGameServer, Universe::Public);
    assert!(anon_gs.is_game_server());
}

#[test]
fn sid_005_clan_account() {
    let clan = SteamId::from_parts(12345, 0, AccountType::Clan, Universe::Public);
    assert!(clan.is_clan());
    assert!(!clan.is_individual());
}

// =============================================================================
// SID-006: Universe Detection
// Reference: https://developer.valvesoftware.com/wiki/SteamID#Universes_Available_for_Steam_Accounts
// =============================================================================

#[test]
fn sid_006_universe_public() {
    let id = SteamId::from_parts(12345, 1, AccountType::Individual, Universe::Public);
    assert_eq!(id.universe(), Universe::Public);
}

#[test]
fn sid_006_universe_beta() {
    let id = SteamId::from_parts(12345, 1, AccountType::Individual, Universe::Beta);
    assert_eq!(id.universe(), Universe::Beta);
}

#[test]
fn sid_006_all_universes() {
    for universe in [Universe::Invalid, Universe::Public, Universe::Beta, Universe::Internal, Universe::Dev] {
        let id = SteamId::from_parts(12345, 1, AccountType::Individual, universe);
        assert_eq!(id.universe(), universe);
    }
}

// =============================================================================
// SID-007: Invalid SteamID Rejection
// =============================================================================

#[test]
fn sid_007_nil_invalid() {
    assert!(!SteamId::nil().is_valid());
    assert!(!SteamId::from_u64(0).is_valid());
}

#[test]
fn sid_007_invalid_universe() {
    let id = SteamId::from_parts(12345, 1, AccountType::Individual, Universe::Invalid);
    assert!(!id.is_valid());
}

#[test]
fn sid_007_invalid_type() {
    let id = SteamId::from_parts(12345, 1, AccountType::Invalid, Universe::Public);
    assert!(!id.is_valid());
}

#[test]
fn sid_007_parse_invalid_format() {
    assert!("not_a_steam_id".parse::<SteamId>().is_err());
    assert!("STEAM_invalid".parse::<SteamId>().is_err());
    assert!("[X:1:123]".parse::<SteamId>().is_err()); // Invalid type char
    assert!("STEAM_0:2:123".parse::<SteamId>().is_err()); // Y must be 0 or 1
}

// =============================================================================
// SID-008: Anonymous GameServer ID
// Reference: https://developer.valvesoftware.com/wiki/SteamID
// =============================================================================

#[test]
fn sid_008_anon_game_server() {
    let anon = SteamId::from_parts(0, 0, AccountType::AnonGameServer, Universe::Public);
    assert!(anon.is_game_server());
    assert_eq!(anon.account_type(), AccountType::AnonGameServer);
}

// =============================================================================
// SID-009: Pending ID Handling
// =============================================================================

#[test]
fn sid_009_pending_account() {
    let pending = SteamId::from_parts(0, 0, AccountType::Pending, Universe::Public);
    assert_eq!(pending.account_type(), AccountType::Pending);
    // Pending accounts are technically valid in the system
}

// =============================================================================
// SID-010: SteamID Uniqueness (bit manipulation)
// =============================================================================

#[test]
fn sid_010_component_uniqueness() {
    // Different components should produce different IDs
    let id1 = SteamId::from_parts(12345, 1, AccountType::Individual, Universe::Public);
    let id2 = SteamId::from_parts(12346, 1, AccountType::Individual, Universe::Public);
    let id3 = SteamId::from_parts(12345, 2, AccountType::Individual, Universe::Public);
    let id4 = SteamId::from_parts(12345, 1, AccountType::GameServer, Universe::Public);
    let id5 = SteamId::from_parts(12345, 1, AccountType::Individual, Universe::Beta);
    
    // All should be unique
    let ids = [id1, id2, id3, id4, id5];
    for (i, a) in ids.iter().enumerate() {
        for (j, b) in ids.iter().enumerate() {
            if i != j {
                assert_ne!(a, b, "IDs at {} and {} should be different", i, j);
            }
        }
    }
}

#[test]
fn sid_010_bit_boundaries() {
    // Test max values for each component
    let max_account = SteamId::from_parts(u32::MAX, 1, AccountType::Individual, Universe::Public);
    assert_eq!(max_account.account_id(), u32::MAX);
    
    let max_instance = SteamId::from_parts(1, 0xFFFFF, AccountType::Individual, Universe::Public);
    assert_eq!(max_instance.instance(), 0xFFFFF);
}

#[test]
fn parse_text_trims_and_rejects() {
    let id: SteamId = "  76561198012345678 \n".parse().unwrap();
    assert_eq!(id.as_u64(), 76561198012345678);
    let legacy: SteamId = " STEAM_0:1:26039975 ".parse().unwrap();
    assert_eq!(legacy.account_id(), 52079951);
    assert!("STEAM_0:1:4294967295".parse::<SteamId>().is_err());
    assert!("[U:9:1]".parse::<SteamId>().is_err());
    assert_eq!(SteamId::parse_steam3("[g:1:77]").unwrap().account_type(), AccountType::Clan);
}
