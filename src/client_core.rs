//! The client's connection state machine, free of I/O.
//!
//! The driver performs the network work, hands each outcome to these
//! methods, and carries out the action they return. Spawned-entity records
//! are kept abstract (`S`), as they carry coordinates.
use vstd::prelude::*;

use crate::server_core::MapInfo;
use crate::wire::ClientId;

verus! {

/// Default capacity of the client's snapshot history.
pub const SNAPSHOT_HISTORY: usize = 32;

/// The client's connection phase.
#[derive(Debug, Clone, Copy, PartialEq, Eq, Structural)]
pub enum ClientState {
    /// Not connected to any server.
    Disconnected,
    /// Handshake in progress.
    Connecting,
    /// Connected, waiting for map information.
    Connected,
    /// Loading the announced map.
    LoadingMap,
    /// Map loaded, playing.
    Ready,
}

/// What a poll of the reliable channel produced.
pub enum ReliableEvent<S> {
    /// The server announced a map.
    MapInfo(MapInfo),
    /// The server spawned an entity.
    EntitySpawn(S),
    /// A console line from the server.
    ServerPrint(String),
    /// The server closed the session.
    Disconnect(String),
    /// Any other message.
    Other,
    /// Nothing arrived in time.
    Timeout,
    /// The channel failed.
    Error,
}

/// What the driver must do after an event.
#[derive(Debug, Clone, PartialEq, Eq)]
pub enum ClientAction {
    /// Nothing.
    Nothing,
    /// Load the named map from disk and report the outcome.
    LoadMap(String),
}

/// The client's session state.
pub struct ClientCore<S> {
    client_id: Option<ClientId>,
    state: ClientState,
    tick: u32,
    pending_map: Option<MapInfo>,
    spawned: Vec<S>,
    messages: Vec<String>,
    sent_ticks: Ghost<Seq<u32>>,
}

/// Strictly increasing.
pub open spec fn strictly_increasing(s: Seq<u32>) -> bool {
    forall|i: int, j: int| 0 <= i < j < s.len() ==> s[i] < s[j]
}

impl<S> ClientCore<S> {
    /// The current phase.
    pub closed spec fn spec_state(&self) -> ClientState {
        self.state
    }

    /// The id the server assigned, once welcomed.
    pub closed spec fn spec_client_id(&self) -> Option<ClientId> {
        self.client_id
    }

    /// The tick the next command will carry.
    pub closed spec fn spec_tick(&self) -> u32 {
        self.tick
    }

    /// The ticks of the commands built so far, in order.
    pub closed spec fn sent_ticks(&self) -> Seq<u32> {
        self.sent_ticks@
    }

    /// Entity spawns received, in order.
    pub closed spec fn spawned(&self) -> Seq<S> {
        self.spawned@
    }

    /// Server console lines received, in order.
    pub closed spec fn messages(&self) -> Seq<String> {
        self.messages@
    }

    /// The map last announced by the server.
    pub closed spec fn pending_map(&self) -> Option<MapInfo> {
        self.pending_map
    }

    /// Command ticks increase and stay below the next tick.
    pub closed spec fn wf(&self) -> bool {
        &&& strictly_increasing(self.sent_ticks@)
        &&& forall|i: int| 0 <= i < self.sent_ticks@.len() ==> #[trigger] self.sent_ticks@[i] < self.tick
    }

    /// A disconnected client at tick 0.
    pub fn new() -> (r: Self)
        ensures
            r.wf(),
            r.spec_state() == ClientState::Disconnected,
            r.spec_client_id() is None,
            r.spec_tick() == 0,
            r.sent_ticks() == Seq::<u32>::empty(),
            r.spawned() == Seq::<S>::empty(),
            r.messages() == Seq::<String>::empty(),
    {
        ClientCore {
            client_id: None,
            state: ClientState::Disconnected,
            tick: 0,
            pending_map: None,
            spawned: Vec::new(),
            messages: Vec::new(),
            sent_ticks: Ghost(Seq::empty()),
        }
    }

    /// The current phase.
    pub fn state(&self) -> (r: ClientState)
        ensures
            r == self.spec_state(),
    {
        self.state
    }

    /// The tick the next command will carry.
    pub fn current_tick(&self) -> (r: u32)
        ensures
            r == self.spec_tick(),
    {
        self.tick
    }

    /// The assigned client id, once welcomed.
    pub fn client_id(&self) -> (r: Option<ClientId>)
        ensures
            r == self.spec_client_id(),
    {
        self.client_id
    }

    /// The handshake starts.
    pub fn begin_connect(&mut self)
        requires
            old(self).wf(),
        ensures
            final(self).wf(),
            final(self).spec_state() == ClientState::Connecting,
            final(self).spec_tick() == old(self).spec_tick(),
            final(self).sent_ticks() == old(self).sent_ticks(),
    {
        self.state = ClientState::Connecting;
    }

    /// The server's reply to the hello: `Some(id)` for a `Welcome`, `None`
    /// for anything else, which ends the session. Reports whether the
    /// client is now connected.
    pub fn on_handshake_reply(&mut self, welcome: Option<ClientId>) -> (r: bool)
        requires
            old(self).wf(),
        ensures
            final(self).wf(),
            r <==> welcome is Some,
            r ==> final(self).spec_state() == ClientState::Connected && final(self).spec_client_id() == welcome,
            !r ==> final(self).spec_state() == ClientState::Disconnected,
            final(self).spec_tick() == old(self).spec_tick(),
            final(self).sent_ticks() == old(self).sent_ticks(),
    {
        match welcome {
            Some(id) => {
                self.client_id = Some(id);
                self.state = ClientState::Connected;
                true
            },
            None => {
                self.state = ClientState::Disconnected;
                false
            },
        }
    }

    /// Dispatches one outcome of polling the reliable channel.
    pub fn on_reliable(&mut self, ev: ReliableEvent<S>) -> (r: ClientAction)
        requires
            old(self).wf(),
        ensures
            final(self).wf(),
            final(self).spec_tick() == old(self).spec_tick(),
            final(self).sent_ticks() == old(self).sent_ticks(),
            final(self).spec_client_id() == old(self).spec_client_id(),
            match ev {
                ReliableEvent::MapInfo(m) => final(self).spec_state() == ClientState::LoadingMap
                    && final(self).pending_map() == Some(m)
                    && r == ClientAction::LoadMap(m.name)
                    && final(self).spawned() == old(self).spawned()
                    && final(self).messages() == old(self).messages(),
                ReliableEvent::EntitySpawn(s) => final(self).spawned() == old(self).spawned().push(s)
                    && final(self).spec_state() == old(self).spec_state()
                    && final(self).messages() == old(self).messages()
                    && r == ClientAction::Nothing,
                ReliableEvent::ServerPrint(t) => final(self).messages() == old(self).messages().push(t)
                    && final(self).spec_state() == old(self).spec_state()
                    && final(self).spawned() == old(self).spawned()
                    && r == ClientAction::Nothing,
                ReliableEvent::Disconnect(_) | ReliableEvent::Error => final(self).spec_state()
                    == ClientState::Disconnected
                    && final(self).spawned() == old(self).spawned()
                    && final(self).messages() == old(self).messages()
                    && r == ClientAction::Nothing,
                ReliableEvent::Other | ReliableEvent::Timeout => final(self).spec_state()
                    == old(self).spec_state()
                    && final(self).spawned() == old(self).spawned()
                    && final(self).messages() == old(self).messages()
                    && r == ClientAction::Nothing,
            },
    {
        match ev {
            ReliableEvent::MapInfo(m) => {
                let name = m.name.clone();
                self.pending_map = Some(m);
                self.state = ClientState::LoadingMap;
                ClientAction::LoadMap(name)
            },
            ReliableEvent::EntitySpawn(s) => {
                self.spawned.push(s);
                ClientAction::Nothing
            },
            ReliableEvent::ServerPrint(t) => {
                self.messages.push(t);
                ClientAction::Nothing
            },
            ReliableEvent::Disconnect(_) => {
                self.state = ClientState::Disconnected;
                ClientAction::Nothing
            },
            ReliableEvent::Error => {
                self.state = ClientState::Disconnected;
                ClientAction::Nothing
            },
            ReliableEvent::Other => ClientAction::Nothing,
            ReliableEvent::Timeout => ClientAction::Nothing,
        }
    }

    /// The outcome of loading the announced map: the client is ready with no
    /// spawned entities left from before, or, unable to honour the
    /// announcement, disconnected. On success the driver clears its
    /// snapshot history.
    pub fn on_map_loaded(&mut self, ok: bool)
        requires
            old(self).wf(),
        ensures
            final(self).wf(),
            ok ==> final(self).spec_state() == ClientState::Ready && final(self).spawned().len() == 0,
            !ok ==> final(self).spawned() == old(self).spawned(),
            final(self).messages() == old(self).messages(),
            !ok ==> final(self).spec_state() == ClientState::Disconnected,
            final(self).spec_tick() == old(self).spec_tick(),
            final(self).sent_ticks() == old(self).sent_ticks(),
            final(self).spec_client_id() == old(self).spec_client_id(),
    {
        if ok {
            self.state = ClientState::Ready;
            self.spawned.clear();
        } else {
            self.state = ClientState::Disconnected;
        }
    }

    /// A map was loaded locally (outside any announcement): the client is
    /// ready, with no spawned entities left from before.
    pub fn on_local_map(&mut self)
        requires
            old(self).wf(),
        ensures
            final(self).wf(),
            final(self).spec_state() == ClientState::Ready,
            final(self).spawned().len() == 0,
            final(self).spec_tick() == old(self).spec_tick(),
            final(self).sent_ticks() == old(self).sent_ticks(),
    {
        self.state = ClientState::Ready;
        self.spawned.clear();
    }

    /// Ends the session.
    pub fn disconnect(&mut self)
        requires
            old(self).wf(),
        ensures
            final(self).wf(),
            final(self).spec_state() == ClientState::Disconnected,
            final(self).spec_tick() == old(self).spec_tick(),
            final(self).sent_ticks() == old(self).sent_ticks(),
    {
        self.state = ClientState::Disconnected;
    }

    /// The id and tick for this iteration's `PlayerCommand`, when the client
    /// is ready; the tick then advances. `None` when not ready, not
    /// welcomed, or when the tick counter is used up.
    pub fn next_command(&mut self) -> (r: Option<(ClientId, u32)>)
        requires
            old(self).wf(),
        ensures
            final(self).wf(),
            final(self).spec_state() == old(self).spec_state(),
            final(self).spec_client_id() == old(self).spec_client_id(),
            (old(self).spec_state() == ClientState::Ready && old(self).spec_client_id() is Some
                && old(self).spec_tick() < u32::MAX) ==> (r == Some((old(self).spec_client_id()->0, old(self).spec_tick()))
                && final(self).spec_tick() == old(self).spec_tick() + 1
                && final(self).sent_ticks() == old(self).sent_ticks().push(old(self).spec_tick())),
            !(old(self).spec_state() == ClientState::Ready && old(self).spec_client_id() is Some
                && old(self).spec_tick() < u32::MAX) ==> r is None && final(self).spec_tick() == old(self).spec_tick()
                && final(self).sent_ticks() == old(self).sent_ticks(),
    {
        if self.state != ClientState::Ready || self.tick == u32::MAX {
            return None;
        }
        match self.client_id {
            Some(id) => {
                let t = self.tick;
                self.sent_ticks = Ghost(self.sent_ticks@.push(t));
                self.tick = t + 1;
                Some((id, t))
            },
            None => None,
        }
    }
}

/// The `PlayerCommand`s that a client builds carry strictly increasing
/// ticks, whatever sequence of calls led to the state.
pub proof fn lemma_command_ticks_increase<S>(c: ClientCore<S>)
    requires
        c.wf(),
    ensures
        strictly_increasing(c.sent_ticks()),
{
}

} // verus!
