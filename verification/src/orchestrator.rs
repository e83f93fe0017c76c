//! The decisions of the connection orchestrator.
//!
//! The orchestrator sits between the transport and the game. The transport
//! reports what happens to connections; for each report the orchestrator
//! decides what the transport is to do about it, what the game is to be told,
//! and how its table of peers changes. It performs no I/O itself: the caller
//! polls the transport, hands each event over, and carries out the answer.

use std::collections::HashMap;
use vstd::prelude::*;
use vstd::std_specs::iter::IteratorSpec;
use crate::packet::{DecodeError, Packet, PacketEnvelope, PacketModel};

verus! {

broadcast use vstd::std_specs::hash::group_hash_axioms;

/// Number of peer ids that a server has to give out.
pub const PLAYER_COUNT: u8 = 100;

/// Most messages that one poll of the transport handles.
pub const MAX_MESSAGES_PER_POLL: usize = 256;

/// Most connection events that one poll of the transport handles.
pub const MAX_EVENTS_PER_POLL: usize = 128;

/// Time that one tick may spend polling, in milliseconds.
pub const POLL_TIME_BUDGET_MS: u64 = 2;

/// Seconds between two reports of the connections' statistics.
pub const STATS_INTERVAL_SECS: u64 = 10;

/// End reason that a client reports when it disconnects of its own accord.
pub const CLIENT_LEFT_REASON: i64 = 1000;

/// The state of a connection, as the transport reports it.
#[derive(Clone, Copy, Debug, PartialEq, Eq)]
pub enum ConnectionState {
    /// No connection: the state before the first and after the last.
    Unconnected,
    Connecting,
    FindingRoute,
    Connected,
    ClosedByPeer,
    ProblemDetectedLocally,
    /// A state that only the transport itself deals with.
    Other,
}

/// A change of a connection's state.
#[derive(Clone, Copy, Debug, PartialEq, Eq)]
pub struct ConnectionEvent {
    /// The transport's handle of the connection.
    pub connection: u32,
    pub old_state: ConnectionState,
    pub new_state: ConnectionState,
    /// The transport's reason code for the end of the connection.
    pub end_reason: i64,
}

/// What a change of state means to the orchestrator.
#[derive(Clone, Copy, Debug, PartialEq, Eq)]
pub enum Transition {
    /// A peer asks for a connection.
    Connecting,
    /// A connection that was asked for stands.
    Connected,
    /// The connection ended, by the peer's doing or by a local problem.
    Closed,
    /// Nothing that the orchestrator acts on.
    Other,
}

/// Why the orchestrator has a connection closed.
#[derive(Clone, Copy, Debug, PartialEq, Eq)]
pub enum CloseReason {
    /// A peer asked for a connection while no peer id was free.
    ServerFull,
    /// A connection came to stand while no peer id was free.
    NoPeerIdLeft,
    /// The connection had ended; closing it releases what the transport holds
    /// for it.
    ConnectionEnded,
}

/// What the transport is to do.
#[derive(Clone, Copy, Debug, PartialEq, Eq)]
pub enum TransportCommand {
    Nothing,
    Accept { connection: u32 },
    Close { connection: u32, reason: CloseReason },
}

/// What a server tells the game.
#[derive(Clone, Copy, Debug, PartialEq, Eq)]
pub enum ServerNotice {
    PeerConnected { peer_id: u8 },
    PeerDisconnected { peer_id: u8, reason: i64 },
}

/// What a client tells the game.
#[derive(Clone, Copy, Debug, PartialEq, Eq)]
pub enum ClientNotice {
    ConnectedToServer,
    DisconnectedFromServer { reason: i64 },
}

/// A server's answer to a connection event.
#[derive(Clone, Copy, Debug, PartialEq, Eq)]
pub struct ServerStep {
    pub command: TransportCommand,
    pub notice: Option<ServerNotice>,
}

/// What one tick has to do.
#[derive(Clone, Copy, Debug, PartialEq, Eq)]
pub enum TickPlan {
    /// Not connected: nothing.
    Idle,
    /// Poll the listening socket.
    PollServer,
    /// Poll the connection to the server.
    PollClient,
    /// The socket that this role polls is not there. The orchestrator was
    /// started wrongly, and to go on would corrupt its state: the caller gives up.
    MissingHandle,
}

/// What became of the bytes that a server received on a connection.
pub enum ServerInbound {
    /// A packet from a known peer, for the game.
    Packet { peer_id: u8, packet: Packet },
    /// The connection has no peer id; the bytes are dropped.
    UnknownConnection,
    /// The bytes are no packet; they are dropped, and the connection stays.
    Malformed { error: DecodeError },
}

/// What a client does with a packet to send.
pub enum SendPlan {
    /// The role is that of the server, which sends by broadcast: nothing.
    NotAClient,
    /// The connection to the server is not there: the caller gives up.
    MissingHandle,
    /// Send the envelope to the server.
    Send { envelope: PacketEnvelope },
}

/// What a server does with a packet to broadcast.
pub enum BroadcastPlan {
    /// The role is not that of the server: nothing.
    NotAServer,
    /// The listening socket is not there: the caller gives up.
    MissingHandle,
    /// Send the envelope once to each of the connections.
    Send { connections: Vec<u32>, envelope: PacketEnvelope },
}

/// What a change from `old_state` to `new_state` means.
pub open spec fn spec_classify(old_state: ConnectionState, new_state: ConnectionState) -> Transition {
    if old_state == ConnectionState::Unconnected && new_state == ConnectionState::Connecting {
        Transition::Connecting
    } else if old_state == ConnectionState::Connecting && new_state == ConnectionState::Connected {
        Transition::Connected
    } else if new_state == ConnectionState::ClosedByPeer || new_state
        == ConnectionState::ProblemDetectedLocally {
        Transition::Closed
    } else {
        Transition::Other
    }
}

/// What a change from `old_state` to `new_state` means.
pub fn classify(old_state: ConnectionState, new_state: ConnectionState) -> (transition: Transition)
    ensures
        transition == spec_classify(old_state, new_state),
{
    match (old_state, new_state) {
        (ConnectionState::Unconnected, ConnectionState::Connecting) => Transition::Connecting,
        (ConnectionState::Connecting, ConnectionState::Connected) => Transition::Connected,
        (_, ConnectionState::ClosedByPeer) => Transition::Closed,
        (_, ConnectionState::ProblemDetectedLocally) => Transition::Closed,
        _ => Transition::Other,
    }
}

impl CloseReason {
    /// The reason code that the transport passes on to the peer.
    pub open spec fn spec_code(self) -> int {
        match self {
            CloseReason::ServerFull => 1001,
            CloseReason::NoPeerIdLeft => 2000,
            CloseReason::ConnectionEnded => 1002,
        }
    }

    /// The reason code that the transport passes on to the peer.
    pub fn code(self) -> (code: u32)
        ensures
            code == self.spec_code(),
    {
        match self {
            CloseReason::ServerFull => 1001,
            CloseReason::NoPeerIdLeft => 2000,
            CloseReason::ConnectionEnded => 1002,
        }
    }

    /// Whether the connection is closed because the server is full.
    pub open spec fn spec_is_full(self) -> bool {
        self == CloseReason::ServerFull || self == CloseReason::NoPeerIdLeft
    }

    /// The words that the transport passes on to the peer.
    pub fn text(self) -> (text: &'static str)
        ensures
            text@ == if self.spec_is_full() {
                "Server is full"@
            } else {
                "Closing connection ended by client"@
            },
    {
        match self {
            CloseReason::ServerFull => "Server is full",
            CloseReason::NoPeerIdLeft => "Server is full",
            CloseReason::ConnectionEnded => "Closing connection ended by client",
        }
    }
}

/// The mathematical content of an orchestrator.
#[verifier::ext_equal]
pub struct OrchestratorModel {
    /// The free peer ids; the next one to give out is the last.
    pub pool: Seq<u8>,
    /// The peer id of each connection that stands.
    pub peers: Map<u32, u8>,
    /// Whether a role was started and has not ended.
    pub is_connected: bool,
    /// Whether the role is that of the server.
    pub is_server: bool,
    /// Whether the listening socket is there.
    pub server_open: bool,
    /// Whether the connection to the server is there.
    pub client_open: bool,
}

impl OrchestratorModel {
    /// No two connections share a peer id.
    pub open spec fn unique_peer_ids(self) -> bool {
        forall|a: u32, b: u32|
            self.peers.contains_key(a) && self.peers.contains_key(b) && a != b
                ==> self.peers[a] != self.peers[b]
    }

    /// No peer id is free twice, none is both free and given out, and none is
    /// given out twice.
    pub open spec fn wf(self) -> bool {
        &&& self.pool.no_duplicates()
        &&& self.peers.dom().finite()
        &&& self.unique_peer_ids()
        &&& forall|connection: u32|
            self.peers.contains_key(connection) ==> !self.pool.contains(
                #[trigger] self.peers[connection],
            )
    }

    /// The orchestrator with another pool and peer table.
    pub open spec fn with_peers(self, pool: Seq<u8>, peers: Map<u32, u8>) -> Self {
        OrchestratorModel {
            pool,
            peers,
            is_connected: self.is_connected,
            is_server: self.is_server,
            server_open: self.server_open,
            client_open: self.client_open,
        }
    }

    /// The server after a connection event.
    ///
    /// A connection that comes to stand takes the last free peer id, if there
    /// is one. A connection that ends gives its peer id back. Nothing else
    /// changes the pool or the table.
    pub open spec fn after_server_event(self, event: ConnectionEvent) -> Self {
        match spec_classify(event.old_state, event.new_state) {
            Transition::Connected => if self.pool.len() > 0 {
                self.with_peers(
                    self.pool.drop_last(),
                    self.peers.insert(event.connection, self.pool.last()),
                )
            } else {
                self
            },
            Transition::Closed => if self.peers.contains_key(event.connection) {
                self.with_peers(
                    self.pool.push(self.peers[event.connection]),
                    self.peers.remove(event.connection),
                )
            } else {
                self
            },
            _ => self,
        }
    }

    /// The server's answer to a connection event.
    ///
    /// A peer that asks for a connection is accepted while a peer id is free,
    /// and turned away as soon as none is. A connection that comes to stand is
    /// announced with its peer id, or closed when no id is left for it. A
    /// connection that ends is closed, and its peer is announced as gone if it
    /// was known.
    pub open spec fn server_response(self, event: ConnectionEvent) -> ServerStep {
        match spec_classify(event.old_state, event.new_state) {
            Transition::Connecting => if self.pool.len() == 0 {
                ServerStep {
                    command: TransportCommand::Close {
                        connection: event.connection,
                        reason: CloseReason::ServerFull,
                    },
                    notice: None,
                }
            } else {
                ServerStep {
                    command: TransportCommand::Accept { connection: event.connection },
                    notice: None,
                }
            },
            Transition::Connected => if self.pool.len() > 0 {
                ServerStep {
                    command: TransportCommand::Nothing,
                    notice: Some(ServerNotice::PeerConnected { peer_id: self.pool.last() }),
                }
            } else {
                ServerStep {
                    command: TransportCommand::Close {
                        connection: event.connection,
                        reason: CloseReason::NoPeerIdLeft,
                    },
                    notice: None,
                }
            },
            Transition::Closed => ServerStep {
                command: TransportCommand::Close {
                    connection: event.connection,
                    reason: CloseReason::ConnectionEnded,
                },
                notice: if self.peers.contains_key(event.connection) {
                    Some(
                        ServerNotice::PeerDisconnected {
                            peer_id: self.peers[event.connection],
                            reason: event.end_reason,
                        },
                    )
                } else {
                    None
                },
            },
            Transition::Other => ServerStep { command: TransportCommand::Nothing, notice: None },
        }
    }

    /// The client after a connection event: a connection that ends is dropped.
    pub open spec fn after_client_event(self, event: ConnectionEvent) -> Self {
        match spec_classify(event.old_state, event.new_state) {
            Transition::Closed => OrchestratorModel {
                pool: self.pool,
                peers: self.peers,
                is_connected: false,
                is_server: self.is_server,
                server_open: self.server_open,
                client_open: false,
            },
            _ => self,
        }
    }

    /// What the client tells the game about a connection event.
    pub open spec fn client_response(self, event: ConnectionEvent) -> Option<ClientNotice> {
        match spec_classify(event.old_state, event.new_state) {
            Transition::Connected => Some(ClientNotice::ConnectedToServer),
            Transition::Closed => Some(
                ClientNotice::DisconnectedFromServer { reason: event.end_reason },
            ),
            _ => None,
        }
    }

    /// What one tick has to do.
    pub open spec fn tick_plan(self) -> TickPlan {
        if !self.is_connected {
            TickPlan::Idle
        } else if self.is_server {
            if self.server_open {
                TickPlan::PollServer
            } else {
                TickPlan::MissingHandle
            }
        } else {
            if self.client_open {
                TickPlan::PollClient
            } else {
                TickPlan::MissingHandle
            }
        }
    }

    /// The server after a sequence of connection events, one after the other.
    pub open spec fn after_server_events(self, events: Seq<ConnectionEvent>) -> Self
        decreases events.len(),
    {
        if events.len() == 0 {
            self
        } else {
            self.after_server_events(events.drop_last()).after_server_event(events.last())
        }
    }

    /// A connection event leaves a well-formed server well formed.
    pub proof fn lemma_server_event_keeps_wf(self, event: ConnectionEvent)
        requires
            self.wf(),
        ensures
            self.after_server_event(event).wf(),
    {
        let after = self.after_server_event(event);
        match spec_classify(event.old_state, event.new_state) {
            Transition::Connected => {
                if self.pool.len() > 0 {
                    let given = self.pool.last();
                    assert(self.pool[self.pool.len() - 1] == given);
                    assert forall|a: u32, b: u32|
                        after.peers.contains_key(a) && after.peers.contains_key(b) && a
                            != b implies after.peers[a] != after.peers[b] by {
                        if a != event.connection {
                            assert(!self.pool.contains(self.peers[a]));
                        }
                        if b != event.connection {
                            assert(!self.pool.contains(self.peers[b]));
                        }
                    }
                    assert forall|connection: u32|
                        after.peers.contains_key(connection) implies !after.pool.contains(
                        #[trigger] after.peers[connection],
                    ) by {
                        if after.pool.contains(after.peers[connection]) {
                            let i = choose|i: int|
                                0 <= i < after.pool.len() && after.pool[i]
                                    == after.peers[connection];
                            assert(self.pool[i] == after.peers[connection]);
                            if connection != event.connection {
                                assert(self.pool.contains(self.peers[connection]));
                            }
                        }
                    }
                }
            },
            Transition::Closed => {
                if self.peers.contains_key(event.connection) {
                    let released = self.peers[event.connection];
                    assert(!self.pool.contains(released));
                    assert forall|i: int, j: int|
                        0 <= i < after.pool.len() && 0 <= j < after.pool.len() && i
                            != j implies after.pool[i] != after.pool[j] by {
                        if i < self.pool.len() {
                            assert(self.pool.contains(self.pool[i]));
                        }
                        if j < self.pool.len() {
                            assert(self.pool.contains(self.pool[j]));
                        }
                    }
                    assert forall|connection: u32|
                        after.peers.contains_key(connection) implies !after.pool.contains(
                        #[trigger] after.peers[connection],
                    ) by {
                        if after.pool.contains(after.peers[connection]) {
                            let i = choose|i: int|
                                0 <= i < after.pool.len() && after.pool[i]
                                    == after.peers[connection];
                            if i < self.pool.len() {
                                assert(self.pool.contains(self.peers[connection]));
                            }
                        }
                    }
                }
            },
            _ => {},
        }
    }

    /// Whatever connection events a well-formed server sees, in whatever
    /// order, no two connections that stand at the same time share a peer id.
    pub proof fn lemma_peer_ids_stay_unique(self, events: Seq<ConnectionEvent>)
        requires
            self.wf(),
        ensures
            self.after_server_events(events).wf(),
            self.after_server_events(events).unique_peer_ids(),
        decreases events.len(),
    {
        if events.len() > 0 {
            self.lemma_peer_ids_stay_unique(events.drop_last());
            self.after_server_events(events.drop_last()).lemma_server_event_keeps_wf(
                events.last(),
            );
        }
    }

    /// A peer id that a closing connection gives back goes to the next
    /// connection that comes to stand.
    pub proof fn lemma_released_id_is_given_again(
        self,
        closing: ConnectionEvent,
        arriving: ConnectionEvent,
    )
        requires
            self.wf(),
            spec_classify(closing.old_state, closing.new_state) == Transition::Closed,
            self.peers.contains_key(closing.connection),
            spec_classify(arriving.old_state, arriving.new_state) == Transition::Connected,
        ensures
            self.after_server_event(closing).after_server_event(arriving).peers[arriving.connection]
                == self.peers[closing.connection],
            self.after_server_event(closing).server_response(arriving).notice == Some(
                ServerNotice::PeerConnected { peer_id: self.peers[closing.connection] },
            ),
    {
    }

    /// A connection that ends is always closed, so that the transport lets go
    /// of it, and it is in the peer table no longer.
    pub proof fn lemma_ended_connection_is_released(self, event: ConnectionEvent)
        requires
            spec_classify(event.old_state, event.new_state) == Transition::Closed,
        ensures
            self.server_response(event).command == (TransportCommand::Close {
                connection: event.connection,
                reason: CloseReason::ConnectionEnded,
            }),
            !self.after_server_event(event).peers.contains_key(event.connection),
    {
    }

    /// With no peer id free, a peer that asks for a connection is turned away
    /// for the server being full, and the peer table stays as it is.
    pub proof fn lemma_full_server_turns_away(self, event: ConnectionEvent)
        requires
            self.pool.len() == 0,
            spec_classify(event.old_state, event.new_state) == Transition::Connecting,
        ensures
            self.server_response(event).command == (TransportCommand::Close {
                connection: event.connection,
                reason: CloseReason::ServerFull,
            }),
            CloseReason::ServerFull.spec_is_full(),
            self.after_server_event(event) == self,
            self.after_server_event(event).peers.len() == self.peers.len(),
    {
    }
}

/// The peer ids of a server that has given out none: the ids below `count`,
/// highest first, so that the lowest is given out first.
pub open spec fn spec_fresh_pool(count: int) -> Seq<u8> {
    Seq::new(count as nat, |i: int| (count - 1 - i) as u8)
}

/// Whether a tick polls the transport once more: only when the poll before
/// found work to do and the tick has spent less than its polling budget.
pub open spec fn spec_poll_again(processed: usize, elapsed_nanos: u128) -> bool {
    processed > 0 && elapsed_nanos < 2_000_000
}

/// Whether a tick polls the transport once more, `elapsed_nanos` nanoseconds
/// after it began to poll and after a poll that handled `processed` items.
pub fn poll_again(processed: usize, elapsed_nanos: u128) -> (again: bool)
    ensures
        again == spec_poll_again(processed, elapsed_nanos),
{
    let budget_nanos: u128 = (POLL_TIME_BUDGET_MS as u128) * 1_000_000;
    !(processed == 0 || elapsed_nanos >= budget_nanos)
}

/// Whether the statistics of the connections are due, `elapsed_secs` whole
/// seconds after the last report: once more than ten have passed.
pub fn stats_report_due(elapsed_secs: u64) -> (due: bool)
    ensures
        due == (elapsed_secs > 10),
{
    elapsed_secs > STATS_INTERVAL_SECS
}

/// The state of one endpoint: its role, and for a server the peer ids that are
/// free and those that are given out.
pub struct ConnectionOrchestrator {
    available_peer_ids: Vec<u8>,
    connected_clients: HashMap<u32, u8>,
    is_connected: bool,
    is_server: bool,
    server_open: bool,
    client_open: bool,
}

impl View for ConnectionOrchestrator {
    type V = OrchestratorModel;

    closed spec fn view(&self) -> OrchestratorModel {
        OrchestratorModel {
            pool: self.available_peer_ids@,
            peers: self.connected_clients@,
            is_connected: self.is_connected,
            is_server: self.is_server,
            server_open: self.server_open,
            client_open: self.client_open,
        }
    }
}

impl ConnectionOrchestrator {
    /// The orchestrator is well formed when its content is.
    pub open spec fn wf(&self) -> bool {
        self@.wf()
    }

    /// An orchestrator without a role. All peer ids are free, and the lowest
    /// is the first to be given out.
    pub fn new() -> (orchestrator: Self)
        ensures
            orchestrator.wf(),
            orchestrator@.pool == spec_fresh_pool(100),
            orchestrator@.peers == Map::<u32, u8>::empty(),
            !orchestrator@.is_connected,
            !orchestrator@.is_server,
            !orchestrator@.server_open,
            !orchestrator@.client_open,
    {
        let mut available_peer_ids: Vec<u8> = Vec::new();
        let mut remaining: u8 = PLAYER_COUNT;
        while remaining > 0
            invariant
                0 <= remaining <= 100,
                available_peer_ids@.len() == 100 - remaining,
                forall|i: int|
                    0 <= i < available_peer_ids@.len() ==> available_peer_ids@[i] == 99 - i,
            decreases remaining,
        {
            remaining -= 1;
            available_peer_ids.push(remaining);
        }
        assert(available_peer_ids@ =~= spec_fresh_pool(100));
        ConnectionOrchestrator {
            available_peer_ids,
            connected_clients: HashMap::new(),
            is_connected: false,
            is_server: false,
            server_open: false,
            client_open: false,
        }
    }

    /// Takes the role of the server. `listening` says whether the transport
    /// opened the listening socket.
    pub fn start_server(&mut self, listening: bool)
        ensures
            final(self)@ == (OrchestratorModel {
                is_connected: true,
                is_server: true,
                server_open: listening,
                ..old(self)@
            }),
    {
        self.is_server = true;
        self.server_open = listening;
        self.is_connected = true;
    }

    /// Takes the role of a client. `connecting` says whether the transport
    /// opened the connection to the server.
    pub fn start_client(&mut self, connecting: bool)
        ensures
            final(self)@ == (OrchestratorModel {
                is_connected: true,
                is_server: false,
                client_open: connecting,
                ..old(self)@
            }),
    {
        self.is_server = false;
        self.client_open = connecting;
        self.is_connected = true;
    }

    /// Drops the connection to the server, and returns what the game is told.
    pub fn disconnect_client(&mut self) -> (notice: ClientNotice)
        ensures
            final(self)@ == (OrchestratorModel {
                is_connected: false,
                client_open: false,
                ..old(self)@
            }),
            notice == (ClientNotice::DisconnectedFromServer { reason: 1000 }),
    {
        self.client_open = false;
        self.is_connected = false;
        ClientNotice::DisconnectedFromServer { reason: CLIENT_LEFT_REASON }
    }

    /// Drops the listening socket.
    pub fn destroy_server(&mut self)
        ensures
            final(self)@ == (OrchestratorModel {
                is_connected: false,
                server_open: false,
                ..old(self)@
            }),
    {
        self.server_open = false;
        self.is_connected = false;
    }

    /// Whether a role was started and has not ended.
    pub fn is_connected(&self) -> (connected: bool)
        ensures
            connected == self@.is_connected,
    {
        self.is_connected
    }

    /// Whether the role is that of the server.
    pub fn is_server(&self) -> (server: bool)
        ensures
            server == self@.is_server,
    {
        self.is_server
    }

    /// Number of connections that stand.
    pub fn peer_count(&self) -> (count: usize)
        ensures
            count == self@.peers.len(),
    {
        self.connected_clients.len()
    }

    /// Number of peer ids that are free.
    pub fn free_peer_ids(&self) -> (count: usize)
        ensures
            count == self@.pool.len(),
    {
        self.available_peer_ids.len()
    }

    /// The peer id of a connection, if it stands.
    pub fn peer_id_of(&self, connection: u32) -> (peer_id: Option<u8>)
        ensures
            peer_id == if self@.peers.contains_key(connection) {
                Some(self@.peers[connection])
            } else {
                None
            },
    {
        match self.connected_clients.get(&connection) {
            Some(peer_id) => Some(*peer_id),
            None => None,
        }
    }

    /// The connections that stand, each once, in no particular order.
    pub fn connections(&self) -> (connections: Vec<u32>)
        ensures
            connections@.to_set() == self@.peers.dom(),
            connections@.no_duplicates(),
    {
        let mut connections: Vec<u32> = Vec::new();
        for connection in walk: self.connected_clients.keys()
            invariant
                walk.seq() == self.connected_clients.keys().remaining(),
                connections@ == walk.seq().unref().take(walk.index()),
        {
            connections.push(*connection);
            assert(connections@ =~= walk.seq().unref().take(walk.index() + 1));
        }
        assert(connections@ =~= self.connected_clients.keys().remaining().unref());
        connections
    }

    /// What this tick has to do.
    pub fn tick_plan(&self) -> (plan: TickPlan)
        ensures
            plan == self@.tick_plan(),
    {
        if !self.is_connected {
            TickPlan::Idle
        } else if self.is_server {
            if self.server_open {
                TickPlan::PollServer
            } else {
                TickPlan::MissingHandle
            }
        } else {
            if self.client_open {
                TickPlan::PollClient
            } else {
                TickPlan::MissingHandle
            }
        }
    }

    /// Takes a connection event in the role of the server, and answers with
    /// what the transport is to do and what the game is to be told.
    pub fn on_server_event(&mut self, event: ConnectionEvent) -> (step: ServerStep)
        requires
            old(self).wf(),
        ensures
            final(self).wf(),
            final(self)@ == old(self)@.after_server_event(event),
            step == old(self)@.server_response(event),
    {
        proof {
            old(self)@.lemma_server_event_keeps_wf(event);
        }
        match classify(event.old_state, event.new_state) {
            Transition::Connecting => {
                if self.available_peer_ids.len() == 0 {
                    ServerStep {
                        command: TransportCommand::Close {
                            connection: event.connection,
                            reason: CloseReason::ServerFull,
                        },
                        notice: None,
                    }
                } else {
                    ServerStep {
                        command: TransportCommand::Accept { connection: event.connection },
                        notice: None,
                    }
                }
            },
            Transition::Connected => {
                match self.available_peer_ids.pop() {
                    Some(peer_id) => {
                        self.connected_clients.insert(event.connection, peer_id);
                        assert(self@ =~= old(self)@.after_server_event(event));
                        ServerStep {
                            command: TransportCommand::Nothing,
                            notice: Some(ServerNotice::PeerConnected { peer_id }),
                        }
                    },
                    None => ServerStep {
                        command: TransportCommand::Close {
                            connection: event.connection,
                            reason: CloseReason::NoPeerIdLeft,
                        },
                        notice: None,
                    },
                }
            },
            Transition::Closed => {
                let notice = match self.connected_clients.remove(&event.connection) {
                    Some(peer_id) => {
                        self.available_peer_ids.push(peer_id);
                        Some(ServerNotice::PeerDisconnected { peer_id, reason: event.end_reason })
                    },
                    None => None,
                };
                assert(self@ =~= old(self)@.after_server_event(event));
                ServerStep {
                    command: TransportCommand::Close {
                        connection: event.connection,
                        reason: CloseReason::ConnectionEnded,
                    },
                    notice,
                }
            },
            Transition::Other => ServerStep { command: TransportCommand::Nothing, notice: None },
        }
    }

    /// Takes the connection events of one poll in the role of the server, in
    /// the order in which the transport reported them, and answers each.
    pub fn on_server_events(&mut self, events: &Vec<ConnectionEvent>) -> (steps: Vec<ServerStep>)
        requires
            old(self).wf(),
        ensures
            final(self).wf(),
            final(self)@ == old(self)@.after_server_events(events@),
            steps@.len() == events@.len(),
            forall|i: int|
                0 <= i < events@.len() ==> steps@[i] == old(self)@.after_server_events(
                    events@.take(i),
                ).server_response(#[trigger] events@[i]),
    {
        let mut steps: Vec<ServerStep> = Vec::new();
        let mut handled: usize = 0;
        assert(events@.take(0) =~= Seq::<ConnectionEvent>::empty());
        while handled < events.len()
            invariant
                0 <= handled <= events@.len(),
                self.wf(),
                self@ == old(self)@.after_server_events(events@.take(handled as int)),
                steps@.len() == handled,
                forall|i: int|
                    0 <= i < handled ==> steps@[i] == old(self)@.after_server_events(
                        events@.take(i),
                    ).server_response(#[trigger] events@[i]),
            decreases events@.len() - handled,
        {
            let step = self.on_server_event(events[handled]);
            steps.push(step);
            proof {
                let seen = events@.take(handled as int + 1);
                assert(seen.drop_last() =~= events@.take(handled as int));
                assert(seen.last() == events@[handled as int]);
            }
            handled += 1;
        }
        assert(events@.take(handled as int) =~= events@);
        steps
    }

    /// Takes bytes that arrived on a connection, in the role of the server.
    ///
    /// Bytes from a connection without a peer id are dropped, whatever they
    /// hold. Bytes that are no packet are dropped too; the connection is not
    /// torn down for them.
    pub fn on_server_message(&self, connection: u32, payload: &[u8]) -> (inbound: ServerInbound)
        ensures
            match inbound {
                ServerInbound::UnknownConnection => !self@.peers.contains_key(connection),
                ServerInbound::Packet { peer_id, packet } => {
                    &&& self@.peers.contains_key(connection)
                    &&& peer_id == self@.peers[connection]
                    &&& PacketModel::decoded(payload@) == Ok::<_, DecodeError>(packet@)
                },
                ServerInbound::Malformed { error } => {
                    &&& self@.peers.contains_key(connection)
                    &&& PacketModel::decoded(payload@) == Err::<PacketModel, _>(error)
                },
            },
    {
        let packet = Packet::decode(payload);
        let peer_id = match self.connected_clients.get(&connection) {
            Some(peer_id) => *peer_id,
            None => {
                return ServerInbound::UnknownConnection;
            },
        };
        match packet {
            Ok(packet) => ServerInbound::Packet { peer_id, packet },
            Err(error) => ServerInbound::Malformed { error },
        }
    }

    /// What to do with a packet that the game wants sent to the server.
    pub fn send_packet(&self, packet: &Packet) -> (plan: SendPlan)
        ensures
            match plan {
                SendPlan::NotAClient => self@.is_server,
                SendPlan::MissingHandle => !self@.is_server && !self@.client_open,
                SendPlan::Send { envelope } => {
                    &&& !self@.is_server
                    &&& self@.client_open
                    &&& envelope.spec_bytes() == packet@.encoded()
                    &&& envelope.reliable == packet@.id().spec_is_reliable()
                },
            },
    {
        if self.is_server {
            return SendPlan::NotAClient;
        }
        if !self.client_open {
            return SendPlan::MissingHandle;
        }
        SendPlan::Send { envelope: packet.envelope() }
    }

    /// What to do with a packet that the game wants sent to every peer: one
    /// send for each connection that stands.
    pub fn broadcast_packet(&self, packet: &Packet) -> (plan: BroadcastPlan)
        ensures
            match plan {
                BroadcastPlan::NotAServer => !self@.is_server,
                BroadcastPlan::MissingHandle => self@.is_server && !self@.server_open,
                BroadcastPlan::Send { connections, envelope } => {
                    &&& self@.is_server
                    &&& self@.server_open
                    &&& connections@.to_set() == self@.peers.dom()
                    &&& connections@.no_duplicates()
                    &&& envelope.spec_bytes() == packet@.encoded()
                    &&& envelope.reliable == packet@.id().spec_is_reliable()
                },
            },
    {
        if !self.is_server {
            return BroadcastPlan::NotAServer;
        }
        if !self.server_open {
            return BroadcastPlan::MissingHandle;
        }
        BroadcastPlan::Send { connections: self.connections(), envelope: packet.envelope() }
    }

    /// Takes a connection event in the role of a client, and answers with what
    /// the game is to be told. A connection that ended is dropped.
    pub fn on_client_event(&mut self, event: ConnectionEvent) -> (notice: Option<ClientNotice>)
        ensures
            final(self)@ == old(self)@.after_client_event(event),
            notice == old(self)@.client_response(event),
    {
        match classify(event.old_state, event.new_state) {
            Transition::Connected => Some(ClientNotice::ConnectedToServer),
            Transition::Closed => {
                self.is_connected = false;
                self.client_open = false;
                Some(ClientNotice::DisconnectedFromServer { reason: event.end_reason })
            },
            _ => None,
        }
    }
}

} // verus!
