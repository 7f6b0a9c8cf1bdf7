use engine::bsp::{read_header, BspError, BspMap, BSP_MAGIC, BSP_VERSION_MAX, BSP_VERSION_MIN, HEADER_SIZE};
use engine::config::EngineConfig;
use engine::console::parse_command_line;
use engine::event::EventBus;
use engine::resources::ResourceManager;
use engine::client_core::{ClientAction, ClientCore, ClientState, ReliableEvent, SNAPSHOT_HISTORY};
use engine::ecs::{EntityId, World};
use engine::entity_text::parse_entity_lump;
use engine::server_core::{accept_hello, accept_udp_hello, Endpoint, HandshakeError, HandshakeMsg, MapInfo, ServerCore, ServerState};
use engine::snapshot::{find_entity, EntityState, Snapshot, SnapshotBuffer};
use engine::wire::{
    decode_frame, encode_frame, frame_len, protocol_matches, ClientId, ClientIdAllocator, FrameError,
    PROTOCOL_VERSION,
};

type Pos = (f32, f32, f32);

fn lerp(a: Pos, b: Pos, t: f32) -> Pos {
    let t = t.clamp(0.0, 1.0);
    (a.0 + (b.0 - a.0) * t, a.1 + (b.1 - a.1) * t, a.2 + (b.2 - a.2) * t)
}

fn snap(tick: u32, ents: Vec<(u64, Pos)>) -> Snapshot<Pos> {
    Snapshot {
        tick,
        entities: ents.into_iter().map(|(id, p)| EntityState { id: EntityId(id), position: p }).collect(),
    }
}

fn header(magic: u32, version: u32) -> Vec<u8> {
    let mut d = Vec::new();
    d.extend_from_slice(&magic.to_le_bytes());
    d.extend_from_slice(&version.to_le_bytes());
    d.resize(HEADER_SIZE, 0);
    d
}

#[test]
fn parse_entity_lump_basic() {
    let text = "\n{\n\"classname\" \"worldspawn\"\n\"mapversion\" \"1\"\n}\n{\n\"classname\" \"info_player_start\"\n\"origin\" \"0 0 64\"\n}\n";
    let ents = parse_entity_lump(text.as_bytes());
    assert_eq!(ents.len(), 2);
    assert_eq!(ents[0].classname, b"worldspawn".to_vec());
    assert_eq!(ents[1].classname, b"info_player_start".to_vec());
    let origin = ents[1].get(b"origin").unwrap();
    let parts: Vec<f32> = std::str::from_utf8(origin).unwrap().split_whitespace().map(|p| p.parse().unwrap()).collect();
    assert_eq!(parts, vec![0.0, 0.0, 64.0]);
}

#[test]
fn entity_parser_without_trailing_newline() {
    let text = "{\n\"classname\" \"worldspawn\"\n\"mapversion\" \"1\"\n}\n{\n\"classname\" \"info_player_start\"\n\"origin\" \"0 0 64\"\n}";
    let ents = parse_entity_lump(text.as_bytes());
    assert_eq!(ents.len(), 2);
    assert_eq!(ents[1].get(b"origin").unwrap(), &b"0 0 64".to_vec());
}

#[test]
fn entity_parser_skips_noise_and_replaces_keys() {
    let text = "junk\n{\n  \"a\" \"1\"  \nnot a pair\n\"a\" \"2\"\n}\n{\n\"classname\" \"x\"\n";
    let ents = parse_entity_lump(text.as_bytes());
    assert_eq!(ents.len(), 1);
    assert_eq!(ents[0].properties.len(), 1);
    assert_eq!(ents[0].get(b"a").unwrap(), &b"2".to_vec());
}

#[test]
fn snapshot_buffer_overflow() {
    let mut buf: SnapshotBuffer<Pos> = SnapshotBuffer::new(32);
    for t in 0..40u32 {
        buf.push(snap(t, vec![]));
    }
    assert_eq!(buf.len(), 32);
    assert_eq!(buf.last_snapshot().unwrap().tick, 39);
    for i in 0..32usize {
        assert_eq!(buf.snapshot_at(i).unwrap().tick, 8 + i as u32);
    }
    assert!(buf.snapshot_at(32).is_none());
    assert_eq!(SNAPSHOT_HISTORY, 32);
}

#[test]
fn snapshot_buffer_keeps_all_below_capacity() {
    let mut buf: SnapshotBuffer<Pos> = SnapshotBuffer::new(4);
    assert!(buf.is_empty());
    buf.push(snap(1, vec![]));
    buf.push(snap(2, vec![]));
    assert_eq!(buf.len(), 2);
    assert_eq!(buf.last_snapshot().unwrap().tick, 2);
}

#[test]
fn snapshot_interpolation_midpoint() {
    let mut buf: SnapshotBuffer<Pos> = SnapshotBuffer::new(32);
    buf.push(snap(0, vec![(7, (0.0, 0.0, 0.0))]));
    buf.push(snap(1, vec![(7, (2.0, 4.0, 6.0))]));
    let (a, b) = buf.interp_endpoints(EntityId(7)).unwrap();
    assert_eq!(lerp(a, b, 0.5), (1.0, 2.0, 3.0));
    assert_eq!(lerp(a, b, 0.0), a);
    assert_eq!(lerp(a, b, 1.0), b);
    assert_eq!(lerp(a, b, -3.0), a);
    assert_eq!(lerp(a, b, 7.0), b);
}

#[test]
fn interpolation_needs_two_snapshots_and_both_entries() {
    let mut buf: SnapshotBuffer<Pos> = SnapshotBuffer::new(32);
    buf.push(snap(0, vec![(7, (0.0, 0.0, 0.0))]));
    assert!(buf.interp_endpoints(EntityId(7)).is_none());
    buf.push(snap(1, vec![(8, (1.0, 1.0, 1.0))]));
    assert!(buf.interp_endpoints(EntityId(7)).is_none());
    let s = snap(2, vec![(8, (1.0, 0.0, 0.0)), (8, (2.0, 0.0, 0.0))]);
    assert_eq!(find_entity(&s, EntityId(8)).unwrap().position, (1.0, 0.0, 0.0));
}

#[test]
fn frame_round_trip() {
    let payload = b"{\"Hello\":{\"protocol\":1}}".to_vec();
    let f = encode_frame(&payload).unwrap();
    assert_eq!(&f[..4], &(payload.len() as u32).to_be_bytes());
    assert_eq!(frame_len(&f), Some(payload.len() as u32));
    let (p, used) = decode_frame(&f).unwrap();
    assert_eq!(p, payload);
    assert_eq!(used, f.len());
}

#[test]
fn frame_incomplete() {
    assert_eq!(decode_frame(&[0, 0]), Err(FrameError::Incomplete));
    assert_eq!(decode_frame(&[0, 0, 0, 5, 1, 2]), Err(FrameError::Incomplete));
    assert_eq!(decode_frame(&[0, 0, 0, 0]), Ok((vec![], 4)));
}

#[test]
fn client_ids_unique_and_nonzero() {
    let mut a = ClientIdAllocator::new();
    let mut seen = Vec::new();
    for _ in 0..100 {
        let id = a.new_unique().unwrap();
        assert_ne!(id.0, 0);
        assert!(!seen.contains(&id));
        seen.push(id);
    }
}

#[test]
fn map_file_rejection() {
    assert_eq!(read_header(&header(0x12345678, 20)).err(), Some(BspError::BadMagic(0x12345678)));
    assert_eq!(read_header(&header(BSP_MAGIC, BSP_VERSION_MIN - 1)).err(), Some(BspError::UnsupportedVersion(18)));
    assert_eq!(read_header(&header(BSP_MAGIC, BSP_VERSION_MAX + 1)).err(), Some(BspError::UnsupportedVersion(22)));
    assert!(read_header(&header(BSP_MAGIC, 20)).is_ok());
    assert_eq!(read_header(&[0x56, 0x42]).err(), Some(BspError::Truncated));
    assert!(BspMap::load_from_bytes("m".to_string(), &header(1, 20)).is_err());
}

fn map_with(entities: &str, extra_lump: Option<(usize, u32, u32)>) -> Vec<u8> {
    let mut d = header(BSP_MAGIC, 20);
    let off = d.len() as u32;
    let len = entities.len() as u32;
    d[8..12].copy_from_slice(&off.to_le_bytes());
    d[12..16].copy_from_slice(&len.to_le_bytes());
    d.extend_from_slice(entities.as_bytes());
    if let Some((idx, o, l)) = extra_lump {
        let base = 8 + 16 * idx;
        d[base..base + 4].copy_from_slice(&o.to_le_bytes());
        d[base + 4..base + 8].copy_from_slice(&l.to_le_bytes());
    }
    d
}

#[test]
fn map_load_and_spawn_points() {
    let ents = "{\n\"classname\" \"worldspawn\"\n}\n{\n\"classname\" \"info_player_start\"\n\"origin\" \"10 0 0\"\n}\n{\n\"classname\" \"light\"\n\"origin\" \"1 1 1\"\n}\n{\n\"classname\" \"info_target\"\n\"origin\" \"5 5 5\"\n}\n";
    let m = BspMap::load_from_bytes("test".to_string(), &map_with(ents, None)).unwrap();
    assert_eq!(m.entities.len(), 4);
    assert_eq!(m.version, 20);
    assert_eq!(m.spawn_origins(), vec![b"10 0 0".to_vec(), b"5 5 5".to_vec()]);
    assert_eq!(m.worldspawn().unwrap().classname, b"worldspawn".to_vec());
}

#[test]
fn map_lump_out_of_bounds() {
    let d = map_with("", Some((12, 5000, 8)));
    assert_eq!(BspMap::load_from_bytes("x".to_string(), &d).err(), Some(BspError::LumpOutOfBounds(12)));
}

#[test]
fn world_and_components() {
    let mut w: World<u32> = World::new();
    let a = w.spawn();
    let b = w.spawn();
    assert_ne!(a, b);
    w.insert(a, 1);
    w.insert(a, 2);
    assert_eq!(w.get(a), Some(&2));
    assert_eq!(w.get(b), None);
    assert_eq!(w.len(), 1);
    *w.get_mut(a).unwrap() += 5;
    assert_eq!(w.iter(), &[(a, 7)]);
    assert!(w.get_mut(b).is_none());
}

#[test]
fn handshake_happy_path() {
    let mut s: ServerCore<Pos> = ServerCore::new();
    s.begin_map_load();
    s.map_loaded("de_test".to_string(), vec![Some((10.0, 0.0, 0.0))]);
    assert!(protocol_matches(PROTOCOL_VERSION));
    let id = s.handshake(PROTOCOL_VERSION, 1, 5000).unwrap();
    assert_ne!(id.0, 0);
    let info = s.map_info().unwrap();
    assert_eq!(info, MapInfo { name: "de_test".to_string(), crc: 0, size: 0 });
    assert!(!s.client(id).unwrap().ready);
}

#[test]
fn handshake_version_mismatch() {
    let mut s: ServerCore<Pos> = ServerCore::new();
    assert_eq!(s.handshake(PROTOCOL_VERSION + 1, 1, 5000), Err(HandshakeError::VersionMismatch(PROTOCOL_VERSION + 1)));
    assert_eq!(s.client_count(), 0);
    let id = s.handshake(PROTOCOL_VERSION, 1, 5000).unwrap();
    assert_eq!(id, ClientId(1));
}

#[test]
fn input_to_snapshot_loop() {
    let mut s: ServerCore<Pos> = ServerCore::new();
    s.begin_map_load();
    s.map_loaded("m".to_string(), vec![]);
    let id = s.handshake(PROTOCOL_VERSION, 1, 5000).unwrap();
    assert!(s.finish_tick().unwrap().1.is_empty());
    let e = s.client_ready(id, (10.0, 0.0, 0.0)).unwrap();
    let peer = Endpoint { ip: 1, port: 5000 };
    let mut last = None;
    for t in 0..10u32 {
        if let Some(pe) = s.on_command(peer, id, t) {
            let p = s.position(pe).unwrap();
            s.set_position(pe, (p.0 + 1.0 * 0.1, p.1, p.2));
        }
        let (snapshot, to) = s.finish_tick().unwrap();
        assert_eq!(to, vec![peer]);
        if let Some(prev) = last {
            assert!(snapshot.tick > prev);
        }
        last = Some(snapshot.tick);
        if t == 9 {
            let x = find_entity(&snapshot, e).unwrap().position.0;
            assert!((x - 11.0).abs() < 1e-4);
        }
    }
}

#[test]
fn map_load_failure_restores_state() {
    let mut s: ServerCore<Pos> = ServerCore::new();
    let prev = s.begin_map_load();
    assert_eq!(s.state(), ServerState::LoadingMap);
    s.map_load_failed(prev);
    assert_eq!(s.state(), ServerState::Idle);
    assert!(s.finish_tick().is_none());
    assert_eq!(s.tick(), 1);
}

#[test]
fn client_state_machine() {
    let mut c: ClientCore<u32> = ClientCore::new();
    assert_eq!(c.state(), ClientState::Disconnected);
    c.begin_connect();
    assert!(c.on_handshake_reply(Some(ClientId(3))));
    assert_eq!(c.state(), ClientState::Connected);
    assert!(c.next_command().is_none());
    let a = c.on_reliable(ReliableEvent::MapInfo(MapInfo { name: "m".to_string(), crc: 0, size: 0 }));
    assert_eq!(a, ClientAction::LoadMap("m".to_string()));
    assert_eq!(c.state(), ClientState::LoadingMap);
    c.on_map_loaded(true);
    assert_eq!(c.state(), ClientState::Ready);
    assert_eq!(c.next_command(), Some((ClientId(3), 0)));
    assert_eq!(c.next_command(), Some((ClientId(3), 1)));
    assert_eq!(c.on_reliable(ReliableEvent::Timeout), ClientAction::Nothing);
    c.on_reliable(ReliableEvent::Error);
    assert_eq!(c.state(), ClientState::Disconnected);
}

#[test]
fn client_rejects_non_welcome() {
    let mut c: ClientCore<u32> = ClientCore::new();
    c.begin_connect();
    assert!(!c.on_handshake_reply(None));
    assert_eq!(c.state(), ClientState::Disconnected);
}

#[test]
fn parse_quoted_args() {
    let tokens = parse_command_line(r#"say "hello world" test"#);
    assert_eq!(tokens, vec!["say", "hello world", "test"]);
}

#[test]
fn tokenizer_edge_cases() {
    assert!(parse_command_line("").is_empty());
    assert!(parse_command_line("   \t ").is_empty());
    assert_eq!(parse_command_line("map  de_dust2 "), vec!["map", "de_dust2"]);
    assert_eq!(parse_command_line("a\"b c\"d"), vec!["ab cd"]);
}

#[test]
fn ecs_insert_and_get() {
    let mut world: World<(f32, f32, f32)> = World::new();
    let e = world.spawn();
    world.insert(e, (1.0, 2.0, 3.0));
    assert_eq!(world.get(e).unwrap().0, 1.0);
}

#[test]
fn event_bus_drains_in_order() {
    let mut bus: EventBus<u32> = EventBus::new();
    bus.push(3);
    bus.push(1);
    assert_eq!(bus.drain(), vec![3, 1]);
    assert!(bus.drain().is_empty());
}

#[test]
fn resources_by_handle() {
    let mut r: ResourceManager<String> = ResourceManager::new();
    let a = r.insert("a".to_string());
    let b = r.insert("b".to_string());
    assert_ne!(a, b);
    assert_eq!(r.get(&b).unwrap(), "b");
    assert_eq!(r.get(&a).unwrap(), "a");
}

#[test]
fn default_engine_config() {
    let c = EngineConfig::default();
    assert_eq!(c.server_addr, "127.0.0.1:40000");
    assert_eq!(c.tick_hz, 64);
    assert_eq!(c.maps_dir, "maps");
    assert_eq!(c.player_name, "Player");
}

#[test]
fn handshake_message_order() {
    assert_eq!(accept_hello(HandshakeMsg::Hello(PROTOCOL_VERSION)), Ok(PROTOCOL_VERSION));
    assert_eq!(accept_hello(HandshakeMsg::Hello(PROTOCOL_VERSION + 1)), Err(HandshakeError::VersionMismatch(PROTOCOL_VERSION + 1)));
    assert_eq!(accept_hello(HandshakeMsg::UdpHello(5)), Err(HandshakeError::UnexpectedMessage));
    assert_eq!(accept_udp_hello(HandshakeMsg::UdpHello(5000)), Ok(5000));
    assert_eq!(accept_udp_hello(HandshakeMsg::Other), Err(HandshakeError::UnexpectedMessage));
}

#[test]
fn remove_client_keeps_others_and_failed_load_keeps_map() {
    let mut s: ServerCore<Pos> = ServerCore::new();
    s.begin_map_load();
    s.map_loaded("first".to_string(), vec![]);
    let a = s.handshake(PROTOCOL_VERSION, 1, 1).unwrap();
    let b = s.handshake(PROTOCOL_VERSION, 2, 2).unwrap();
    assert!(s.remove_client(a));
    assert!(!s.remove_client(a));
    assert_eq!(s.client_count(), 1);
    assert!(s.client(b).is_some());
    let prev = s.begin_map_load();
    s.map_load_failed(prev);
    assert_eq!(s.state(), ServerState::Running);
    assert_eq!(s.map_info().unwrap().name, "first");
    assert!(s.client_ready(a, (0.0, 0.0, 0.0)).is_none());
    assert!(s.client_ready(b, (1.0, 0.0, 0.0)).is_some());
}

#[test]
fn client_map_load_clears_spawns() {
    let mut c: ClientCore<u32> = ClientCore::new();
    c.begin_connect();
    c.on_handshake_reply(Some(ClientId(1)));
    c.on_reliable(ReliableEvent::EntitySpawn(5));
    c.on_reliable(ReliableEvent::MapInfo(MapInfo { name: "m".to_string(), crc: 0, size: 0 }));
    c.on_map_loaded(true);
    assert_eq!(c.state(), ClientState::Ready);
    assert_eq!(c.current_tick(), 0);
}
