use engine::matchmaking::{A2SQuery, A2SQueryType, A2SResponseType, GameServerInfo, ServerBrowser, ServerNetAdr, ServerRules, ServerType};


fn create_test_server(name: &str, map: &str, players: u8, max_players: u8) -> GameServerInfo {
    GameServerInfo {
        addr: "192.168.1.1:27015".to_string(),
        server_name: name.to_string(),
        map: map.to_string(),
        game_dir: "csgo".to_string(),
        game_description: "Counter-Strike: Global Offensive".to_string(),
        app_id: 730,
        players,
        max_players,
        bots: 0,
        server_type: 'd',
        os: 'l',
        password: false,
        secure: true,
        version: "1.0.0".to_string(),
        ping: 25,
        steam_id: 12345,
        tags: "competitive".to_string(),
    }
}

// =============================================================================
// MM-001: Request Internet Servers
// Reference: https://partner.steamgames.com/doc/api/ISteamMatchmakingServers
// =============================================================================

#[test]
fn mm_001_request_internet_servers() {
    let mut browser = ServerBrowser::new(730);

    let addr = ServerNetAdr::new(0xC0A80101, 27015, 27015); // 192.168.1.1
    browser.add_server(addr, create_test_server("Test Server", "de_dust2", 10, 24));

    let servers = browser.request_server_list(ServerType::Internet);
    assert_eq!(servers.len(), 1);
    assert_eq!(servers[0].server_name, "Test Server");
}

// =============================================================================
// MM-002: Request LAN Servers
// =============================================================================

#[test]
fn mm_002_request_lan_servers() {
    let mut browser = ServerBrowser::new(730);

    // LAN address (192.168.x.x).
    let lan_addr = ServerNetAdr::new(0xC0A80101, 27015, 27015);
    browser.add_server(lan_addr, create_test_server("LAN Server", "de_dust2", 5, 10));

    // Public address.
    let pub_addr = ServerNetAdr::new(0x08080808, 27015, 27015);
    browser.add_server(pub_addr, create_test_server("Public Server", "de_dust2", 5, 10));

    let servers = browser.request_server_list(ServerType::Lan);
    assert_eq!(servers.len(), 1);
    assert_eq!(servers[0].server_name, "LAN Server");
}

// =============================================================================
// MM-003: Request Friends Servers
// =============================================================================

#[test]
fn mm_003_request_friends_servers() {
    let mut browser = ServerBrowser::new(730);

    let addr = ServerNetAdr::new(0xC0A80101, 27015, 27015);
    browser.add_server(addr, create_test_server("Friend's Server", "de_dust2", 8, 16));
    browser.add_friend_server(addr);

    let servers = browser.request_server_list(ServerType::Friends);
    assert_eq!(servers.len(), 1);
    assert_eq!(servers[0].server_name, "Friend's Server");
}

// =============================================================================
// MM-004: Request Favorites
// =============================================================================

#[test]
fn mm_004_request_favorites() {
    let mut browser = ServerBrowser::new(730);

    let addr = ServerNetAdr::new(0xC0A80101, 27015, 27015);
    browser.add_server(addr, create_test_server("Favorite Server", "de_dust2", 10, 20));
    browser.add_to_favorites(addr);

    let servers = browser.request_server_list(ServerType::Favorites);
    assert_eq!(servers.len(), 1);

    browser.remove_from_favorites(addr);
    let servers = browser.request_server_list(ServerType::Favorites);
    assert_eq!(servers.len(), 0);
}

// =============================================================================
// MM-005: Request History
// =============================================================================

#[test]
fn mm_005_request_history() {
    let mut browser = ServerBrowser::new(730);

    let addr1 = ServerNetAdr::new(0xC0A80101, 27015, 27015);
    let addr2 = ServerNetAdr::new(0xC0A80102, 27015, 27015);

    browser.add_server(addr1, create_test_server("Server 1", "de_dust2", 5, 10));
    browser.add_server(addr2, create_test_server("Server 2", "de_inferno", 8, 16));

    browser.add_to_history(addr1);
    browser.add_to_history(addr2);

    let servers = browser.request_server_list(ServerType::History);
    assert_eq!(servers.len(), 2);
}

// =============================================================================
// MM-007: Filter Application
// =============================================================================

#[test]
fn mm_007_filter_application() {
    let mut browser = ServerBrowser::new(730);

    let addr1 = ServerNetAdr::new(0xC0A80101, 27015, 27015);
    let addr2 = ServerNetAdr::new(0xC0A80102, 27015, 27015);

    let mut server1 = create_test_server("Dust2 Server", "de_dust2", 10, 24);
    server1.app_id = 730;
    browser.add_server(addr1, server1);

    let mut server2 = create_test_server("Inferno Server", "de_inferno", 12, 24);
    server2.app_id = 730;
    browser.add_server(addr2, server2);

    // Filter by map.
    browser.add_filter("map", "dust2");
    let servers = browser.request_server_list(ServerType::Internet);
    assert_eq!(servers.len(), 1);
    assert!(servers[0].map.contains("dust2"));

    browser.clear_filters();

    // Filter by not full.
    browser.add_filter("notfull", "1");
    let servers = browser.request_server_list(ServerType::Internet);
    assert_eq!(servers.len(), 2);
}

#[test]
fn mm_007_filter_secure() {
    let mut browser = ServerBrowser::new(730);

    let addr1 = ServerNetAdr::new(0xC0A80101, 27015, 27015);
    let addr2 = ServerNetAdr::new(0xC0A80102, 27015, 27015);

    let mut secure_server = create_test_server("Secure", "de_dust2", 10, 24);
    secure_server.secure = true;
    browser.add_server(addr1, secure_server);

    let mut insecure_server = create_test_server("Insecure", "de_dust2", 10, 24);
    insecure_server.secure = false;
    browser.add_server(addr2, insecure_server);

    browser.add_filter("secure", "1");
    let servers = browser.request_server_list(ServerType::Internet);
    assert_eq!(servers.len(), 1);
    assert!(servers[0].secure);
}

// =============================================================================
// MM-008: Server Response Parsing
// =============================================================================



// =============================================================================
// MM-009: Ping Measurement
// =============================================================================

#[test]
fn mm_009_ping_measurement() {
    let mut browser = ServerBrowser::new(730);

    let addr = ServerNetAdr::new(0xC0A80101, 27015, 27015);
    let mut server = create_test_server("Test", "de_dust2", 10, 24);
    server.ping = 42;
    browser.add_server(addr, server);

    let ping = browser.ping_server(&addr);
    assert_eq!(ping, Some(42));
}

// =============================================================================
// MM-010: Server Rules Query
// =============================================================================

#[test]
fn mm_010_server_rules_query() {
    let mut rules = ServerRules::new();

    rules.add_rule("sv_cheats", "0");
    rules.add_rule("sv_maxrate", "0");
    rules.add_rule("mp_friendlyfire", "0");

    assert_eq!(rules.count(), 3);

    let cheats = rules.find("sv_cheats");
    assert!(cheats.is_some());
    assert_eq!(cheats.unwrap().value, "0");
}

// =============================================================================
// A2S Protocol Tests
// =============================================================================

#[test]
fn a2s_info_query_format() {
    let packet = A2SQuery::build_info_query();

    assert!(packet.len() > 5);
    assert_eq!(&packet[0..4], &[0xFF, 0xFF, 0xFF, 0xFF]);
    assert_eq!(packet[4], 0x54); // 'T'
}

#[test]
fn a2s_player_query_format() {
    let packet = A2SQuery::build_player_query(12345);

    assert_eq!(&packet[0..4], &[0xFF, 0xFF, 0xFF, 0xFF]);
    assert_eq!(packet[4], 0x55); // 'U'
    assert_eq!(&packet[5..9], &12345u32.to_le_bytes());
}

#[test]
fn a2s_rules_query_format() {
    let packet = A2SQuery::build_rules_query(67890);

    assert_eq!(&packet[0..4], &[0xFF, 0xFF, 0xFF, 0xFF]);
    assert_eq!(packet[4], 0x56); // 'V'
}

#[test]
fn a2s_challenge_request() {
    let packet = A2SQuery::build_challenge_request(A2SQueryType::Player);

    assert_eq!(&packet[0..4], &[0xFF, 0xFF, 0xFF, 0xFF]);
    assert_eq!(packet[4], 0x55);
    assert_eq!(&packet[5..9], &[0xFF, 0xFF, 0xFF, 0xFF]);
}

#[test]
fn a2s_response_type_parsing() {
    let info_response = [0xFF, 0xFF, 0xFF, 0xFF, 0x49, 0x00];
    assert_eq!(
        A2SQuery::parse_response_type(&info_response),
        Some(A2SResponseType::Info)
    );

    let player_response = [0xFF, 0xFF, 0xFF, 0xFF, 0x44];
    assert_eq!(
        A2SQuery::parse_response_type(&player_response),
        Some(A2SResponseType::Player)
    );

    let challenge_response = [0xFF, 0xFF, 0xFF, 0xFF, 0x41];
    assert_eq!(
        A2SQuery::parse_response_type(&challenge_response),
        Some(A2SResponseType::Challenge)
    );
}

#[test]
fn a2s_multi_packet_detection() {
    let single = [0xFF, 0xFF, 0xFF, 0xFF, 0x49];
    assert!(!A2SQuery::is_multi_packet(&single));

    let multi = [0xFE, 0xFF, 0xFF, 0xFF, 0x49];
    assert!(A2SQuery::is_multi_packet(&multi));
}

#[test]
fn a2s_max_packet_size() {
    assert_eq!(A2SQuery::MAX_PACKET_SIZE, 1400);
}

// =============================================================================
// Challenge Anti-Spoof Tests
// =============================================================================

#[test]
fn challenge_anti_spoof() {
    let mut browser = ServerBrowser::new(730);

    let addr = ServerNetAdr::new(0xC0A80101, 27015, 27015);

    let challenge1 = browser.get_challenge(addr);
    let challenge2 = browser.get_challenge(addr);

    // Same address should get same challenge.
    assert_eq!(challenge1, challenge2);

    let addr2 = ServerNetAdr::new(0xC0A80102, 27015, 27015);
    let challenge3 = browser.get_challenge(addr2);

    // Different address should get different challenge.
    assert_ne!(challenge1, challenge3);
}

// =============================================================================
// Additional Tests
// =============================================================================

#[test]
fn history_limit() {
    let mut browser = ServerBrowser::new(730);

    // Add more than 100 servers to history.
    for i in 0..150 {
        let addr = ServerNetAdr::new(0xC0A80000 + i, 27015, 27015);
        browser.add_server(addr, create_test_server(&format!("Server {}", i), "de_dust2", 5, 10));
        browser.add_to_history(addr);
    }

    // History should be limited to 100.
    assert!(browser.history.len() <= 100);
}

#[test]
fn filter_has_players() {
    let mut browser = ServerBrowser::new(730);

    let addr1 = ServerNetAdr::new(0xC0A80101, 27015, 27015);
    let addr2 = ServerNetAdr::new(0xC0A80102, 27015, 27015);

    browser.add_server(addr1, create_test_server("Empty", "de_dust2", 0, 24));
    browser.add_server(addr2, create_test_server("Active", "de_dust2", 10, 24));

    browser.add_filter("hasplayers", "1");
    let servers = browser.request_server_list(ServerType::Internet);
    assert_eq!(servers.len(), 1);
    assert_eq!(servers[0].server_name, "Active");
}
