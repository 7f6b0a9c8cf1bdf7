//! The server's bookkeeping, free of I/O: connected clients, the handshake
//! decision, readiness, the entity positions, and the per-tick snapshot with
//! the set of clients it goes to.
//!
//! The driver reads the sockets, calls these methods, and sends what they
//! return. Positions are kept abstract (`P`); the driver does the arithmetic
//! on coordinates.
use vstd::prelude::*;

use crate::ecs::{component_of, EntityId, World};
use crate::snapshot::{EntityState, Snapshot};
use crate::wire::{protocol_matches, ClientId, ClientIdAllocator, PROTOCOL_VERSION};

verus! {

/// A datagram endpoint: an IPv6 address (IPv4 in its mapped form) and a port.
#[derive(Debug, Clone, Copy, PartialEq, Eq, Hash, Structural)]
pub struct Endpoint {
    pub ip: u128,
    pub port: u16,
}

/// The server's phase.
#[derive(Debug, Clone, Copy, PartialEq, Eq, Structural)]
pub enum ServerState {
    /// No map loaded, waiting for a `map` command.
    Idle,
    /// A map is being loaded.
    LoadingMap,
    /// A map is loaded; the simulation runs and snapshots go out.
    Running,
}

/// What the server keeps of one connected client.
#[derive(Debug, Clone, Copy)]
pub struct ClientRecord {
    pub id: ClientId,
    pub udp_peer: Endpoint,
    pub last_cmd_tick: u32,
    pub ready: bool,
    pub player_entity: Option<EntityId>,
}

/// Map information announced to clients; `crc` and `size` are advisory.
#[derive(Debug, Clone, PartialEq)]
pub struct MapInfo {
    pub name: String,
    pub crc: u32,
    pub size: u64,
}

/// Why a handshake was refused.
#[derive(Debug, Clone, Copy, PartialEq, Eq, Structural)]
pub enum HandshakeError {
    /// The client's protocol version differs from the server's.
    VersionMismatch(u32),
    /// No client id is left to hand out.
    IdsExhausted,
    /// A message other than the one the handshake expects at this step.
    UnexpectedMessage,
}

/// A reliable message as the handshake sees it.
#[derive(Debug, Clone, Copy, PartialEq, Eq, Structural)]
pub enum HandshakeMsg {
    /// `Hello { protocol }`.
    Hello(u32),
    /// `UdpHello { client_udp_port }`.
    UdpHello(u16),
    /// Any other message.
    Other,
}

/// The handshake's first message: a `Hello` with this server's protocol
/// version, whose version is returned.
pub fn accept_hello(m: HandshakeMsg) -> (r: Result<u32, HandshakeError>)
    ensures
        r == match m {
            HandshakeMsg::Hello(p) => if p == PROTOCOL_VERSION {
                Ok::<u32, HandshakeError>(p)
            } else {
                Err(HandshakeError::VersionMismatch(p))
            },
            _ => Err(HandshakeError::UnexpectedMessage),
        },
{
    match m {
        HandshakeMsg::Hello(p) => if protocol_matches(p) {
            Ok(p)
        } else {
            Err(HandshakeError::VersionMismatch(p))
        },
        _ => Err(HandshakeError::UnexpectedMessage),
    }
}

/// The handshake's second message: a `UdpHello`, whose port is returned.
pub fn accept_udp_hello(m: HandshakeMsg) -> (r: Result<u16, HandshakeError>)
    ensures
        r == match m {
            HandshakeMsg::UdpHello(port) => Ok::<u16, HandshakeError>(port),
            _ => Err(HandshakeError::UnexpectedMessage),
        },
{
    match m {
        HandshakeMsg::UdpHello(port) => Ok(port),
        _ => Err(HandshakeError::UnexpectedMessage),
    }
}

/// Index of the client with id `id`, or -1.
pub open spec fn client_index(cs: Seq<ClientRecord>, id: ClientId) -> int
    decreases cs.len(),
{
    if cs.len() == 0 {
        -1
    } else if cs.last().id == id {
        cs.len() - 1
    } else {
        client_index(cs.drop_last(), id)
    }
}

/// The endpoints of the ready clients, in client order.
pub open spec fn ready_targets(cs: Seq<ClientRecord>) -> Seq<Endpoint> {
    cs.filter_map(|c: ClientRecord| if c.ready { Some(c.udp_peer) } else { None })
}

/// The snapshot entries for a position table, in table order.
pub open spec fn entity_states<P>(t: Seq<(EntityId, P)>) -> Seq<EntityState<P>> {
    t.map_values(|e: (EntityId, P)| EntityState { id: e.0, position: e.1 })
}

/// Strictly increasing.
pub open spec fn increasing(s: Seq<u32>) -> bool {
    forall|i: int, j: int| 0 <= i < j < s.len() ==> s[i] < s[j]
}

/// The authoritative server's state, minus its sockets.
pub struct ServerCore<P> {
    world: World<P>,
    clients: Vec<ClientRecord>,
    ids: ClientIdAllocator,
    tick: u32,
    state: ServerState,
    map_name: Option<String>,
    sent_ticks: Ghost<Seq<u32>>,
}

impl<P: Copy> ServerCore<P> {
    /// The connected clients.
    pub closed spec fn clients(&self) -> Seq<ClientRecord> {
        self.clients@
    }

    /// The current tick.
    pub closed spec fn spec_tick(&self) -> u32 {
        self.tick
    }

    /// The current phase.
    pub closed spec fn spec_state(&self) -> ServerState {
        self.state
    }

    /// The positions of the entities, in table order.
    pub closed spec fn positions(&self) -> Seq<(EntityId, P)> {
        self.world@
    }

    /// The name of the loaded map, if any.
    pub closed spec fn loaded_map(&self) -> Option<Seq<char>> {
        match self.map_name {
            Some(n) => Some(n@),
            None => None,
        }
    }

    /// The ticks of the snapshots emitted so far, in order.
    pub closed spec fn sent_ticks(&self) -> Seq<u32> {
        self.sent_ticks@
    }

    /// The ids handed out to clients so far.
    /// The id the next handshake hands out.
    pub closed spec fn next_client_id(&self) -> u32 {
        self.ids.next_id()
    }

    /// Whether the world can mint another entity id.
    pub closed spec fn can_spawn(&self) -> bool {
        self.world.next_id() < u64::MAX
    }

    /// The ids handed out to clients so far.
    pub closed spec fn issued_ids(&self) -> Set<u32> {
        self.ids.issued()
    }

    /// Internal consistency: tables keyed uniquely, emitted ticks increasing
    /// and below the current tick.
    pub closed spec fn wf(&self) -> bool {
        &&& self.world.wf()
        &&& self.ids.wf()
        &&& forall|i: int, j: int| 0 <= i < j < self.clients@.len() ==> self.clients@[i].id != self.clients@[j].id
        &&& forall|i: int| 0 <= i < self.clients@.len() ==> self.ids.issued().contains(#[trigger] self.clients@[i].id.0)
        &&& increasing(self.sent_ticks@)
        &&& forall|i: int| 0 <= i < self.sent_ticks@.len() ==> #[trigger] self.sent_ticks@[i] < self.tick
        &&& forall|k: int| 0 <= k < self.world@.len() ==> (#[trigger] self.world@[k]).0.0 < self.world.next_id()
    }

    /// A server with no map and no clients, at tick 0.
    pub fn new() -> (r: Self)
        ensures
            r.wf(),
            r.spec_state() == ServerState::Idle,
            r.spec_tick() == 0,
            r.clients() == Seq::<ClientRecord>::empty(),
            r.positions() == Seq::<(EntityId, P)>::empty(),
            r.sent_ticks() == Seq::<u32>::empty(),
            r.loaded_map() is None,
    {
        ServerCore {
            world: World::new(),
            clients: Vec::new(),
            ids: ClientIdAllocator::new(),
            tick: 0,
            state: ServerState::Idle,
            map_name: None,
            sent_ticks: Ghost(Seq::empty()),
        }
    }

    /// The current phase.
    pub fn state(&self) -> (r: ServerState)
        ensures
            r == self.spec_state(),
    {
        self.state
    }

    /// The connected clients.
    pub fn client_records(&self) -> (r: &[ClientRecord])
        ensures
            r@ == self.clients(),
    {
        self.clients.as_slice()
    }

    /// The current tick.
    pub fn tick(&self) -> (r: u32)
        ensures
            r == self.spec_tick(),
    {
        self.tick
    }

    /// Number of connected clients.
    pub fn client_count(&self) -> (r: usize)
        ensures
            r == self.clients().len(),
    {
        self.clients.len()
    }

    fn find_client(&self, id: ClientId) -> (r: Option<usize>)
        requires
            self.wf(),
        ensures
            match r {
                Some(i) => i < self.clients().len() && self.clients()[i as int].id == id,
                None => forall|i: int| 0 <= i < self.clients().len() ==> self.clients()[i].id != id,
            },
    {
        let mut i: usize = 0;
        while i < self.clients.len()
            invariant
                i <= self.clients@.len(),
                forall|j: int| 0 <= j < i ==> self.clients@[j].id != id,
            decreases self.clients@.len() - i,
        {
            if self.clients[i].id == id {
                return Some(i);
            }
            i = i + 1;
        }
        None
    }

    /// The record of client `id`, if connected.
    pub fn client(&self, id: ClientId) -> (r: Option<ClientRecord>)
        requires
            self.wf(),
        ensures
            match r {
                Some(c) => c.id == id && exists|i: int| 0 <= i < self.clients().len() && self.clients()[i] == c,
                None => forall|i: int| 0 <= i < self.clients().len() ==> self.clients()[i].id != id,
            },
    {
        match self.find_client(id) {
            Some(i) => Some(self.clients[i]),
            None => None,
        }
    }

    /// Enters the map-loading phase and returns the phase it left, to
    /// restore if the load fails.
    pub fn begin_map_load(&mut self) -> (r: ServerState)
        requires
            old(self).wf(),
        ensures
            final(self).wf(),
            r == old(self).spec_state(),
            final(self).spec_state() == ServerState::LoadingMap,
            final(self).loaded_map() == old(self).loaded_map(),
            final(self).spec_tick() == old(self).spec_tick(),
            final(self).clients() == old(self).clients(),
            final(self).positions() == old(self).positions(),
            final(self).sent_ticks() == old(self).sent_ticks(),
    {
        let prev = self.state;
        self.state = ServerState::LoadingMap;
        prev
    }

    /// A failed load: the server goes back to the phase it was in.
    pub fn map_load_failed(&mut self, previous: ServerState)
        requires
            old(self).wf(),
        ensures
            final(self).wf(),
            final(self).spec_state() == previous,
            final(self).loaded_map() == old(self).loaded_map(),
            final(self).spec_tick() == old(self).spec_tick(),
            final(self).clients() == old(self).clients(),
            final(self).positions() == old(self).positions(),
            final(self).sent_ticks() == old(self).sent_ticks(),
    {
        self.state = previous;
    }

    /// A successful load of map `name`: the world is cleared, one entity is
    /// spawned for each entry of `origins` (the map's entities other than
    /// the world itself), with a position where the entry has one, and the
    /// server runs. The tick keeps counting.
    pub fn map_loaded(&mut self, name: String, origins: Vec<Option<P>>)
        requires
            old(self).wf(),
        ensures
            final(self).wf(),
            final(self).spec_state() == ServerState::Running,
            final(self).spec_tick() == old(self).spec_tick(),
            final(self).clients() == old(self).clients(),
            final(self).sent_ticks() == old(self).sent_ticks(),
            final(self).positions() == origins_table(origins@, origins@.len() as int),
            final(self).loaded_map() == Some(name@),
    {
        self.world = World::new();
        let mut i: usize = 0;
        while i < origins.len()
            invariant
                i <= origins@.len(),
                self.world.next_id() == i,
                self.world.wf(),
                self.tick == old(self).tick,
                self.clients == old(self).clients,
                self.ids == old(self).ids,
                self.sent_ticks == old(self).sent_ticks,
                self.world@ == origins_table(origins@, i as int),
                forall|k: int| 0 <= k < self.world@.len() ==> (#[trigger] self.world@[k]).0.0 < self.world.next_id(),
            decreases origins@.len() - i,
        {
            let id = self.world.spawn();
            match origins[i] {
                Some(p) => {
                    proof { lemma_fresh_slot(self.world@, id); }
                    self.world.insert(id, p);
                },
                None => {},
            }
            i = i + 1;
        }
        self.map_name = Some(name);
        self.state = ServerState::Running;
    }

    /// What a client is told of the loaded map, if one is loaded.
    pub fn map_info(&self) -> (r: Option<MapInfo>)
        ensures
            r is Some <==> self.loaded_map() is Some,
            r matches Some(m) ==> Some(m.name@) == self.loaded_map() && m.crc == 0 && m.size == 0,
    {
        match &self.map_name {
            Some(n) => Some(MapInfo { name: n.clone(), crc: 0, size: 0 }),
            None => None,
        }
    }

    /// Completes a handshake: a client that sent `Hello{protocol}` from
    /// `peer_ip` and then announced `udp_port` gets a fresh id and a record
    /// that is not ready and has no player. A wrong protocol version is
    /// refused before any id is allocated, and nothing changes.
    pub fn handshake(&mut self, protocol: u32, peer_ip: u128, udp_port: u16) -> (r: Result<ClientId, HandshakeError>)
        requires
            old(self).wf(),
        ensures
            final(self).wf(),
            protocol != PROTOCOL_VERSION ==> r == Err::<ClientId, HandshakeError>(HandshakeError::VersionMismatch(protocol)),
            protocol == PROTOCOL_VERSION && old(self).next_client_id() < u32::MAX ==> r is Ok,
            r == Err::<ClientId, HandshakeError>(HandshakeError::IdsExhausted) ==> old(self).next_client_id() == u32::MAX,
            r matches Ok(id) ==> id.0 == old(self).next_client_id(),
            final(self).loaded_map() == old(self).loaded_map(),
            r is Err ==> final(self).clients() == old(self).clients() && final(self).issued_ids() == old(self).issued_ids(),
            match r {
                Ok(id) => protocol == PROTOCOL_VERSION && id.0 != 0 && !old(self).issued_ids().contains(id.0)
                    && final(self).clients() == old(self).clients().push(ClientRecord {
                        id,
                        udp_peer: Endpoint { ip: peer_ip, port: udp_port },
                        last_cmd_tick: 0,
                        ready: false,
                        player_entity: None,
                    }),
                Err(e) => e == HandshakeError::IdsExhausted ==> protocol == PROTOCOL_VERSION,
            },
            final(self).spec_state() == old(self).spec_state(),
            final(self).spec_tick() == old(self).spec_tick(),
            final(self).positions() == old(self).positions(),
            final(self).sent_ticks() == old(self).sent_ticks(),
    {
        if !protocol_matches(protocol) {
            return Err(HandshakeError::VersionMismatch(protocol));
        }
        let id = match self.ids.new_unique() {
            Some(id) => id,
            None => return Err(HandshakeError::IdsExhausted),
        };
        let rec = ClientRecord {
            id,
            udp_peer: Endpoint { ip: peer_ip, port: udp_port },
            last_cmd_tick: 0,
            ready: false,
            player_entity: None,
        };
        self.clients.push(rec);
        Ok(id)
    }

    /// Drops the record of client `id` (after a failure on its reliable
    /// channel); reports whether there was one.
    pub fn remove_client(&mut self, id: ClientId) -> (r: bool)
        requires
            old(self).wf(),
        ensures
            final(self).wf(),
            r <==> exists|i: int| 0 <= i < old(self).clients().len() && old(self).clients()[i].id == id,
            forall|i: int| 0 <= i < final(self).clients().len() ==> final(self).clients()[i].id != id,
            r ==> exists|i: int| 0 <= i < old(self).clients().len() && old(self).clients()[i].id == id
                && final(self).clients() == old(self).clients().remove(i),
            !r ==> final(self).clients() == old(self).clients(),
            final(self).loaded_map() == old(self).loaded_map(),
            final(self).spec_state() == old(self).spec_state(),
            final(self).spec_tick() == old(self).spec_tick(),
            final(self).positions() == old(self).positions(),
            final(self).sent_ticks() == old(self).sent_ticks(),
    {
        match self.find_client(id) {
            Some(i) => {
                let ghost before = self.clients@;
                let _ = self.clients.remove(i);
                proof {
                    assert(self.clients@ == before.remove(i as int));
                    assert forall|k: int| 0 <= k < self.clients@.len() implies self.clients@[k].id != id by {
                        if k < i {
                            assert(self.clients@[k] == before[k]);
                        } else {
                            assert(self.clients@[k] == before[k + 1]);
                        }
                    }
                }
                true
            },
            None => false,
        }
    }
}

impl<P: Copy> ServerCore<P> {
    /// Handles `ClientReady` from client `id`: spawns its player entity at
    /// `spawn`, marks the client ready and links the entity to it. An
    /// unknown client changes nothing and gets `None` (as does a world that
    /// has minted every id).
    pub fn client_ready(&mut self, id: ClientId, spawn: P) -> (r: Option<EntityId>)
        requires
            old(self).wf(),
        ensures
            final(self).wf(),
            final(self).spec_state() == old(self).spec_state(),
            final(self).spec_tick() == old(self).spec_tick(),
            final(self).sent_ticks() == old(self).sent_ticks(),
            (forall|i: int| 0 <= i < old(self).clients().len() ==> old(self).clients()[i].id != id) ==> r is None,
            (exists|i: int| 0 <= i < old(self).clients().len() && old(self).clients()[i].id == id) && old(self).can_spawn()
                ==> r is Some,
            final(self).loaded_map() == old(self).loaded_map(),
            r is None ==> final(self).clients() == old(self).clients() && final(self).positions() == old(self).positions(),
            r matches Some(e) ==> exists|i: int| 0 <= i < old(self).clients().len() && old(self).clients()[i].id == id
                && final(self).clients() == old(self).clients().update(i, ClientRecord {
                    ready: true,
                    player_entity: Some(e),
                    ..old(self).clients()[i]
                })
                && final(self).positions() == old(self).positions().push((e, spawn))
                && component_of(final(self).positions(), e) == Some(spawn),
    {
        let i = match self.find_client(id) {
            Some(i) => i,
            None => return None,
        };
        if !self.world.has_room() {
            return None;
        }
        let eid = self.world.spawn();
        proof { lemma_fresh_slot(self.world@, eid); }
        self.world.insert(eid, spawn);
        let mut c = self.clients[i];
        c.ready = true;
        c.player_entity = Some(eid);
        self.clients[i] = c;
        proof {
            assert forall|a: int, b: int| 0 <= a < b < self.clients@.len() implies self.clients@[a].id != self.clients@[b].id by {
                assert(self.clients@[a].id == old(self).clients@[a].id);
                assert(self.clients@[b].id == old(self).clients@[b].id);
            }
            assert forall|a: int| 0 <= a < self.clients@.len() implies self.ids.issued().contains(#[trigger] self.clients@[a].id.0) by {
                assert(self.clients@[a].id == old(self).clients@[a].id);
            }
        }
        Some(eid)
    }

    /// Handles a `PlayerCommand` that client `id` sent from `from` for
    /// `tick`: records the endpoint (the client may have been rebound) and
    /// the tick, and returns the client's player entity for the caller to
    /// move. An unknown client changes nothing.
    pub fn on_command(&mut self, from: Endpoint, id: ClientId, tick: u32) -> (r: Option<EntityId>)
        requires
            old(self).wf(),
        ensures
            final(self).wf(),
            final(self).loaded_map() == old(self).loaded_map(),
            final(self).spec_state() == old(self).spec_state(),
            final(self).spec_tick() == old(self).spec_tick(),
            final(self).sent_ticks() == old(self).sent_ticks(),
            final(self).positions() == old(self).positions(),
            (forall|i: int| 0 <= i < old(self).clients().len() ==> old(self).clients()[i].id != id)
                ==> r is None && final(self).clients() == old(self).clients(),
            forall|i: int| 0 <= i < old(self).clients().len() && old(self).clients()[i].id == id
                ==> r == old(self).clients()[i].player_entity
                && final(self).clients() == old(self).clients().update(i, ClientRecord {
                    udp_peer: from,
                    last_cmd_tick: tick,
                    ..old(self).clients()[i]
                }),
    {
        let i = match self.find_client(id) {
            Some(i) => i,
            None => return None,
        };
        let mut c = self.clients[i];
        c.udp_peer = from;
        c.last_cmd_tick = tick;
        self.clients[i] = c;
        proof {
            assert forall|a: int, b: int| 0 <= a < b < self.clients@.len() implies self.clients@[a].id != self.clients@[b].id by {
                assert(self.clients@[a].id == old(self).clients@[a].id);
                assert(self.clients@[b].id == old(self).clients@[b].id);
            }
            assert forall|a: int| 0 <= a < self.clients@.len() implies self.ids.issued().contains(#[trigger] self.clients@[a].id.0) by {
                assert(self.clients@[a].id == old(self).clients@[a].id);
            }
        }
        c.player_entity
    }

    /// The position of entity `id`, if it has one.
    pub fn position(&self, id: EntityId) -> (r: Option<P>)
        requires
            self.wf(),
        ensures
            r == component_of(self.positions(), id),
    {
        match self.world.get(id) {
            Some(p) => Some(*p),
            None => None,
        }
    }

    /// Moves entity `id` to `p` when it has a position; reports whether it did.
    pub fn set_position(&mut self, id: EntityId, p: P) -> (r: bool)
        requires
            old(self).wf(),
        ensures
            final(self).wf(),
            final(self).loaded_map() == old(self).loaded_map(),
            r <==> component_of(old(self).positions(), id) is Some,
            r ==> final(self).positions() == old(self).positions().update(
                crate::ecs::slot_of(old(self).positions(), id),
                (id, p),
            ),
            !r ==> final(self).positions() == old(self).positions(),
            final(self).clients() == old(self).clients(),
            final(self).spec_state() == old(self).spec_state(),
            final(self).spec_tick() == old(self).spec_tick(),
            final(self).sent_ticks() == old(self).sent_ticks(),
    {
        proof { crate::ecs::lemma_slot_of(self.world@, id); }
        let r = self.world.set(id, p);
        proof {
            assert forall|k: int| 0 <= k < self.world@.len() implies (#[trigger] self.world@[k]).0.0 < self.world.next_id() by {
                assert(self.world@[k].0 == old(self).world@[k].0);
            }
        }
        r
    }

    /// Ends the current tick. While running, it returns the tick's snapshot
    /// (the current tick and every positioned entity, in table order) and
    /// the endpoints of the ready clients that it goes to; then the tick
    /// counter advances.
    pub fn finish_tick(&mut self) -> (r: Option<(Snapshot<P>, Vec<Endpoint>)>)
        requires
            old(self).wf(),
            old(self).spec_tick() < u32::MAX,
        ensures
            final(self).wf(),
            final(self).loaded_map() == old(self).loaded_map(),
            final(self).spec_tick() == old(self).spec_tick() + 1,
            final(self).spec_state() == old(self).spec_state(),
            final(self).clients() == old(self).clients(),
            final(self).positions() == old(self).positions(),
            old(self).spec_state() != ServerState::Running ==> r is None
                && final(self).sent_ticks() == old(self).sent_ticks(),
            old(self).spec_state() == ServerState::Running ==> (r matches Some((snap, to))
                && snap.tick == old(self).spec_tick()
                && snap.entities@ == entity_states(old(self).positions())
                && to@ == ready_targets(old(self).clients())
                && final(self).sent_ticks() == old(self).sent_ticks().push(snap.tick)),
    {
        let r = if self.state == ServerState::Running {
            let snap = self.snapshot();
            let to = self.snapshot_targets();
            self.sent_ticks = Ghost(self.sent_ticks@.push(self.tick));
            Some((snap, to))
        } else {
            None
        };
        self.tick = self.tick + 1;
        r
    }

    /// The snapshot of the current tick: every positioned entity, in table
    /// order.
    pub fn snapshot(&self) -> (r: Snapshot<P>)
        ensures
            r.tick == self.spec_tick(),
            r.entities@ == entity_states(self.positions()),
    {
        let t = self.world.iter();
        let mut out: Vec<EntityState<P>> = Vec::new();
        let mut i: usize = 0;
        while i < t.len()
            invariant
                i <= t@.len(),
                t@ == self.world@,
                out@ == entity_states(t@.take(i as int)),
            decreases t@.len() - i,
        {
            let (id, p) = t[i];
            out.push(EntityState { id, position: p });
            i = i + 1;
            assert(out@ =~= entity_states(t@.take(i as int)));
        }
        assert(t@.take(t@.len() as int) =~= t@);
        Snapshot { tick: self.tick, entities: out }
    }

    /// Where this tick's snapshot goes: the endpoint of every ready client,
    /// in client order. A client that has not signalled ready gets nothing.
    pub fn snapshot_targets(&self) -> (r: Vec<Endpoint>)
        ensures
            r@ == ready_targets(self.clients()),
    {
        let ghost f = |c: ClientRecord| if c.ready { Some(c.udp_peer) } else { None };
        let mut out: Vec<Endpoint> = Vec::new();
        let mut i: usize = 0;
        assert(out@ =~= self.clients@.take(0).filter_map(f));
        while i < self.clients.len()
            invariant
                i <= self.clients@.len(),
                f == (|c: ClientRecord| if c.ready { Some(c.udp_peer) } else { None }),
                out@ == self.clients@.take(i as int).filter_map(f),
            decreases self.clients@.len() - i,
        {
            proof { self.clients@.lemma_filter_map_take_succ(f, i as int); }
            let c = self.clients[i];
            if c.ready {
                out.push(c.udp_peer);
            }
            i = i + 1;
            assert(out@ =~= self.clients@.take(i as int).filter_map(f));
        }
        assert(self.clients@.take(self.clients@.len() as int) =~= self.clients@);
        out
    }
}

/// The snapshots that a server emits carry strictly increasing ticks, each
/// below the current tick, whatever sequence of calls led to the state.
pub proof fn lemma_snapshot_ticks_increase<P: Copy>(s: ServerCore<P>)
    requires
        s.wf(),
    ensures
        increasing(s.sent_ticks()),
        forall|i: int| 0 <= i < s.sent_ticks().len() ==> #[trigger] s.sent_ticks()[i] < s.spec_tick(),
{
}

proof fn lemma_ready_in_targets(cs: Seq<ClientRecord>, i: int)
    requires
        0 <= i < cs.len(),
        cs[i].ready,
    ensures
        ready_targets(cs).contains(cs[i].udp_peer),
    decreases cs.len(),
{
    let f = |c: ClientRecord| if c.ready { Some(c.udp_peer) } else { None };
    let t = cs.drop_last();
    if i == cs.len() - 1 {
        assert(ready_targets(cs) == t.filter_map(f) + seq![cs[i].udp_peer]);
        assert(ready_targets(cs)[ready_targets(cs).len() - 1] == cs[i].udp_peer);
    } else {
        assert(t[i] == cs[i]);
        lemma_ready_in_targets(t, i);
        let k = choose|k: int| 0 <= k < ready_targets(t).len() && ready_targets(t)[k] == cs[i].udp_peer;
        let last = f(cs.last());
        match last {
            Some(x) => {
                assert(ready_targets(cs) == t.filter_map(f) + seq![x]);
                assert(ready_targets(cs)[k] == cs[i].udp_peer);
            },
            None => {
                assert(ready_targets(cs) == t.filter_map(f));
            },
        }
    }
}

/// Once a client is ready, every snapshot the server emits goes to it:
/// the targets of a tick include the endpoint of every ready client.
pub proof fn lemma_ready_clients_receive<P: Copy>(s: ServerCore<P>, i: int)
    requires
        s.wf(),
        0 <= i < s.clients().len(),
        s.clients()[i].ready,
    ensures
        ready_targets(s.clients()).contains(s.clients()[i].udp_peer),
{
    lemma_ready_in_targets(s.clients(), i);
}

/// A client that has not signalled ready receives no snapshot unless a
/// ready client shares its endpoint.
pub proof fn lemma_not_ready_gets_nothing(cs: Seq<ClientRecord>, e: Endpoint)
    requires
        forall|i: int| 0 <= i < cs.len() && cs[i].udp_peer == e ==> !cs[i].ready,
    ensures
        !ready_targets(cs).contains(e),
    decreases cs.len(),
{
    if cs.len() > 0 {
        let t = cs.drop_last();
        assert forall|i: int| 0 <= i < t.len() && t[i].udp_peer == e implies !t[i].ready by {
            assert(t[i] == cs[i]);
        }
        lemma_not_ready_gets_nothing(t, e);
        let f = |c: ClientRecord| if c.ready { Some(c.udp_peer) } else { None };
        match f(cs.last()) {
            Some(x) => {
                assert(ready_targets(cs) == t.filter_map(f) + seq![x]);
                assert(x != e);
                if ready_targets(cs).contains(e) {
                    let k = choose|k: int| 0 <= k < ready_targets(cs).len() && ready_targets(cs)[k] == e;
                    assert(ready_targets(t).contains(e)) by {
                        assert(k < ready_targets(t).len());
                        assert(ready_targets(t)[k] == e);
                    }
                }
            },
            None => {
                assert(ready_targets(cs) == t.filter_map(f));
            },
        }
    }
}

/// The position table that `map_loaded` builds from the first `n` entries:
/// entity `k` has the position of entry `k` where that entry has one.
pub open spec fn origins_table<P>(o: Seq<Option<P>>, n: int) -> Seq<(EntityId, P)>
    decreases n,
{
    if n <= 0 {
        Seq::empty()
    } else {
        match o[n - 1] {
            Some(p) => origins_table(o, n - 1).push((EntityId((n - 1) as u64), p)),
            None => origins_table(o, n - 1),
        }
    }
}

proof fn lemma_fresh_slot<P>(s: Seq<(EntityId, P)>, id: EntityId)
    requires
        forall|k: int| 0 <= k < s.len() ==> (#[trigger] s[k]).0.0 < id.0,
    ensures
        crate::ecs::slot_of(s, id) < 0,
    decreases s.len(),
{
    if s.len() > 0 {
        let t = s.drop_last();
        assert forall|k: int| 0 <= k < t.len() implies (#[trigger] t[k]).0.0 < id.0 by {
            assert(t[k] == s[k]);
        }
        lemma_fresh_slot(t, id);
    }
}

} // verus!
