use netsync::orchestrator::{
    classify, poll_again, stats_report_due, BroadcastPlan, ClientNotice, CloseReason,
    ConnectionEvent, ConnectionOrchestrator, ConnectionState, SendPlan, ServerInbound,
    ServerNotice, ServerStep, TickPlan, TransportCommand, Transition, MAX_EVENTS_PER_POLL,
    MAX_MESSAGES_PER_POLL, PLAYER_COUNT, POLL_TIME_BUDGET_MS,
};
use netsync::packet::{DecodeError, NullPacketWire, Packet, PlayerDisconnectedPacketWire};

fn event(connection: u32, old_state: ConnectionState, new_state: ConnectionState) -> ConnectionEvent {
    ConnectionEvent { connection, old_state, new_state, end_reason: 0 }
}

fn asks(connection: u32) -> ConnectionEvent {
    event(connection, ConnectionState::Unconnected, ConnectionState::Connecting)
}

fn stands(connection: u32) -> ConnectionEvent {
    event(connection, ConnectionState::Connecting, ConnectionState::Connected)
}

fn ends(connection: u32, end_reason: i64) -> ConnectionEvent {
    ConnectionEvent {
        connection,
        old_state: ConnectionState::Connected,
        new_state: ConnectionState::ClosedByPeer,
        end_reason,
    }
}

fn connect(server: &mut ConnectionOrchestrator, connection: u32) -> u8 {
    let asked = server.on_server_event(asks(connection));
    assert_eq!(asked.command, TransportCommand::Accept { connection });
    let stood = server.on_server_event(stands(connection));
    assert_eq!(stood.command, TransportCommand::Nothing);
    match stood.notice {
        Some(ServerNotice::PeerConnected { peer_id }) => peer_id,
        other => panic!("no peer id given out: {:?}", other),
    }
}

#[test]
fn changes_of_state_are_told_apart() {
    let unconnected = ConnectionState::Unconnected;
    let connecting = ConnectionState::Connecting;
    let finding_route = ConnectionState::FindingRoute;
    let connected = ConnectionState::Connected;
    let closed_by_peer = ConnectionState::ClosedByPeer;
    let problem = ConnectionState::ProblemDetectedLocally;
    assert_eq!(classify(unconnected, connecting), Transition::Connecting);
    assert_eq!(classify(connecting, connected), Transition::Connected);
    assert_eq!(classify(connected, closed_by_peer), Transition::Closed);
    assert_eq!(classify(connecting, problem), Transition::Closed);
    assert_eq!(classify(unconnected, closed_by_peer), Transition::Closed);
    assert_eq!(classify(connecting, finding_route), Transition::Other);
    assert_eq!(classify(finding_route, connected), Transition::Other);
    assert_eq!(classify(connected, unconnected), Transition::Other);
    assert_eq!(classify(connected, connecting), Transition::Other);
    assert_eq!(classify(ConnectionState::Other, ConnectionState::Other), Transition::Other);
}

#[test]
fn close_reasons_carry_their_codes_and_words() {
    assert_eq!(CloseReason::ServerFull.code(), 1001);
    assert_eq!(CloseReason::NoPeerIdLeft.code(), 2000);
    assert_eq!(CloseReason::ConnectionEnded.code(), 1002);
    assert_eq!(CloseReason::ServerFull.text(), "Server is full");
    assert_eq!(CloseReason::NoPeerIdLeft.text(), "Server is full");
    assert_eq!(CloseReason::ConnectionEnded.text(), "Closing connection ended by client");
}

#[test]
fn a_new_orchestrator_has_no_role_and_all_peer_ids_free() {
    let orchestrator = ConnectionOrchestrator::new();
    assert!(!orchestrator.is_connected());
    assert!(!orchestrator.is_server());
    assert_eq!(orchestrator.peer_count(), 0);
    assert_eq!(orchestrator.free_peer_ids(), 100);
    assert_eq!(PLAYER_COUNT, 100);
    assert_eq!(orchestrator.tick_plan(), TickPlan::Idle);
    assert!(orchestrator.connections().is_empty());
}

#[test]
fn the_tick_plan_follows_role_and_handle() {
    let mut orchestrator = ConnectionOrchestrator::new();
    orchestrator.start_server(true);
    assert!(orchestrator.is_connected());
    assert!(orchestrator.is_server());
    assert_eq!(orchestrator.tick_plan(), TickPlan::PollServer);
    orchestrator.destroy_server();
    assert_eq!(orchestrator.tick_plan(), TickPlan::Idle);
    orchestrator.start_server(false);
    assert_eq!(orchestrator.tick_plan(), TickPlan::MissingHandle);
    orchestrator.start_client(true);
    assert!(!orchestrator.is_server());
    assert_eq!(orchestrator.tick_plan(), TickPlan::PollClient);
    assert_eq!(
        orchestrator.disconnect_client(),
        ClientNotice::DisconnectedFromServer { reason: 1000 }
    );
    assert_eq!(orchestrator.tick_plan(), TickPlan::Idle);
    orchestrator.start_client(false);
    assert_eq!(orchestrator.tick_plan(), TickPlan::MissingHandle);
}

#[test]
fn peers_get_the_lowest_free_id() {
    let mut server = ConnectionOrchestrator::new();
    server.start_server(true);
    assert_eq!(connect(&mut server, 700), 0);
    assert_eq!(connect(&mut server, 701), 1);
    assert_eq!(connect(&mut server, 702), 2);
    assert_eq!(server.peer_count(), 3);
    assert_eq!(server.free_peer_ids(), 97);
    assert_eq!(server.peer_id_of(701), Some(1));
    assert_eq!(server.peer_id_of(999), None);
    let mut connections = server.connections();
    connections.sort();
    assert_eq!(connections, vec![700, 701, 702]);
}

#[test]
fn a_connection_that_ends_gives_its_id_back() {
    let mut server = ConnectionOrchestrator::new();
    server.start_server(true);
    connect(&mut server, 700);
    connect(&mut server, 701);
    let step = server.on_server_event(ends(700, 1234));
    assert_eq!(
        step,
        ServerStep {
            command: TransportCommand::Close {
                connection: 700,
                reason: CloseReason::ConnectionEnded,
            },
            notice: Some(ServerNotice::PeerDisconnected { peer_id: 0, reason: 1234 }),
        }
    );
    assert_eq!(server.peer_count(), 1);
    assert_eq!(server.free_peer_ids(), 99);
    assert_eq!(server.peer_id_of(700), None);
    // The id that was given back goes to the next connection.
    assert_eq!(connect(&mut server, 702), 0);
    assert_eq!(server.peer_id_of(701), Some(1));
}

#[test]
fn a_local_problem_ends_a_connection_too() {
    let mut server = ConnectionOrchestrator::new();
    connect(&mut server, 5);
    let step = server.on_server_event(ConnectionEvent {
        connection: 5,
        old_state: ConnectionState::Connected,
        new_state: ConnectionState::ProblemDetectedLocally,
        end_reason: 4001,
    });
    assert_eq!(
        step.notice,
        Some(ServerNotice::PeerDisconnected { peer_id: 0, reason: 4001 })
    );
    assert_eq!(server.peer_count(), 0);
    assert_eq!(server.free_peer_ids(), 100);
}

#[test]
fn an_unknown_connection_that_ends_is_closed_without_notice() {
    let mut server = ConnectionOrchestrator::new();
    connect(&mut server, 5);
    let step = server.on_server_event(ends(77, 9));
    assert_eq!(
        step,
        ServerStep {
            command: TransportCommand::Close {
                connection: 77,
                reason: CloseReason::ConnectionEnded,
            },
            notice: None,
        }
    );
    assert_eq!(server.peer_count(), 1);
    assert_eq!(server.free_peer_ids(), 99);
}

#[test]
fn other_changes_of_state_do_nothing() {
    let mut server = ConnectionOrchestrator::new();
    connect(&mut server, 5);
    let step = server.on_server_event(event(
        5,
        ConnectionState::Connecting,
        ConnectionState::FindingRoute,
    ));
    assert_eq!(step, ServerStep { command: TransportCommand::Nothing, notice: None });
    assert_eq!(server.peer_count(), 1);
    assert_eq!(server.free_peer_ids(), 99);
}

#[test]
fn a_full_server_turns_peers_away() {
    let mut server = ConnectionOrchestrator::new();
    server.start_server(true);
    for connection in 0..100u32 {
        let peer_id = connect(&mut server, 1000 + connection);
        assert_eq!(u32::from(peer_id), connection);
    }
    assert_eq!(server.free_peer_ids(), 0);
    assert_eq!(server.peer_count(), 100);
    let step = server.on_server_event(asks(5000));
    assert_eq!(
        step,
        ServerStep {
            command: TransportCommand::Close { connection: 5000, reason: CloseReason::ServerFull },
            notice: None,
        }
    );
    assert_eq!(CloseReason::ServerFull.code(), 1001);
    assert_eq!(CloseReason::ServerFull.text(), "Server is full");
    assert_eq!(server.peer_count(), 100);
    assert_eq!(server.peer_id_of(5000), None);
    // A connection that comes to stand all the same finds no id either.
    let step = server.on_server_event(stands(5000));
    assert_eq!(
        step,
        ServerStep {
            command: TransportCommand::Close {
                connection: 5000,
                reason: CloseReason::NoPeerIdLeft,
            },
            notice: None,
        }
    );
    assert_eq!(server.peer_count(), 100);
    // Once a peer leaves there is room again.
    server.on_server_event(ends(1042, 0));
    assert_eq!(server.peer_count(), 99);
    assert_eq!(connect(&mut server, 5000), 42);
}

#[test]
fn peer_ids_stay_unique_whatever_happens() {
    let mut server = ConnectionOrchestrator::new();
    server.start_server(true);
    let mut state: u32 = 12345;
    for _ in 0..5000 {
        state = state.wrapping_mul(1_103_515_245).wrapping_add(12_345);
        let connection = (state >> 16) % 150;
        let action = (state >> 8) % 3;
        let next = match action {
            0 => asks(connection),
            1 => stands(connection),
            _ => ends(connection, 0),
        };
        server.on_server_event(next);
        let connections = server.connections();
        assert_eq!(connections.len(), server.peer_count());
        let mut ids: Vec<u8> = connections
            .iter()
            .map(|connection| server.peer_id_of(*connection).unwrap())
            .collect();
        ids.sort();
        let before = ids.len();
        ids.dedup();
        assert_eq!(ids.len(), before);
        assert!(ids.iter().all(|id| *id < 100));
        assert!(server.peer_count() + server.free_peer_ids() <= 100);
    }
}

#[test]
fn a_client_tells_the_game_of_connect_and_disconnect() {
    let mut client = ConnectionOrchestrator::new();
    client.start_client(true);
    assert_eq!(client.on_client_event(asks(1)), None);
    assert!(client.is_connected());
    assert_eq!(client.on_client_event(stands(1)), Some(ClientNotice::ConnectedToServer));
    assert_eq!(client.tick_plan(), TickPlan::PollClient);
    assert_eq!(
        client.on_client_event(ends(1, 5005)),
        Some(ClientNotice::DisconnectedFromServer { reason: 5005 })
    );
    assert!(!client.is_connected());
    assert_eq!(client.tick_plan(), TickPlan::Idle);
}

#[test]
fn a_server_drops_what_it_cannot_place_or_read() {
    let mut server = ConnectionOrchestrator::new();
    server.start_server(true);
    connect(&mut server, 9);
    let wire = Packet::PlayerDisconnected(PlayerDisconnectedPacketWire { player_id: 3 }).encode();
    match server.on_server_message(9, &wire) {
        ServerInbound::Packet { peer_id, packet: Packet::PlayerDisconnected(packet) } => {
            assert_eq!(peer_id, 0);
            assert_eq!(packet.player_id, 3);
        }
        _ => panic!("the packet should have been delivered"),
    }
    assert!(matches!(server.on_server_message(10, &wire), ServerInbound::UnknownConnection));
    assert!(matches!(server.on_server_message(10, &[]), ServerInbound::UnknownConnection));
    assert!(matches!(
        server.on_server_message(9, &[]),
        ServerInbound::Malformed { error: DecodeError::EmptyPacket }
    ));
    assert!(matches!(
        server.on_server_message(9, &[200, 1, 2]),
        ServerInbound::Malformed { error: DecodeError::UnknownPacketId }
    ));
    // A packet that cannot be read costs the peer nothing.
    assert_eq!(server.peer_id_of(9), Some(0));
    assert_eq!(server.peer_count(), 1);
}

#[test]
fn only_a_client_with_a_connection_sends() {
    let packet = Packet::PlayerDisconnected(PlayerDisconnectedPacketWire { player_id: 3 });
    let mut orchestrator = ConnectionOrchestrator::new();
    assert!(matches!(orchestrator.send_packet(&packet), SendPlan::MissingHandle));
    orchestrator.start_server(true);
    assert!(matches!(orchestrator.send_packet(&packet), SendPlan::NotAClient));
    orchestrator.start_client(true);
    match orchestrator.send_packet(&packet) {
        SendPlan::Send { envelope } => {
            assert!(envelope.reliable);
            assert_eq!(envelope.type_tag, 3);
            assert_eq!(envelope.payload, vec![3]);
            assert_eq!(envelope.to_bytes(), vec![3, 3]);
        }
        _ => panic!("the packet should have been sent"),
    }
    match orchestrator.send_packet(&Packet::Null(NullPacketWire)) {
        SendPlan::Send { envelope } => {
            assert!(!envelope.reliable);
            assert_eq!(envelope.to_bytes(), vec![4]);
        }
        _ => panic!("the packet should have been sent"),
    }
}

#[test]
fn a_broadcast_goes_once_to_every_peer() {
    let packet = Packet::PlayerDisconnected(PlayerDisconnectedPacketWire { player_id: 8 });
    let mut orchestrator = ConnectionOrchestrator::new();
    assert!(matches!(orchestrator.broadcast_packet(&packet), BroadcastPlan::NotAServer));
    orchestrator.start_server(false);
    assert!(matches!(orchestrator.broadcast_packet(&packet), BroadcastPlan::MissingHandle));
    orchestrator.start_server(true);
    for connection in [40u32, 41, 42] {
        connect(&mut orchestrator, connection);
    }
    orchestrator.on_server_event(ends(41, 0));
    match orchestrator.broadcast_packet(&packet) {
        BroadcastPlan::Send { mut connections, envelope } => {
            connections.sort();
            assert_eq!(connections, vec![40, 42]);
            assert!(envelope.reliable);
            assert_eq!(envelope.to_bytes(), vec![3, 8]);
        }
        _ => panic!("the packet should have been broadcast"),
    }
}

#[test]
fn polling_goes_on_only_with_work_and_time_left() {
    assert_eq!(POLL_TIME_BUDGET_MS, 2);
    assert_eq!(MAX_MESSAGES_PER_POLL, 256);
    assert_eq!(MAX_EVENTS_PER_POLL, 128);
    assert!(poll_again(1, 0));
    assert!(poll_again(256, 1_999_999));
    assert!(!poll_again(256, 2_000_000));
    assert!(!poll_again(256, 5_000_000));
    assert!(!poll_again(0, 0));
    assert!(!poll_again(0, 3_000_000));
}

#[test]
fn statistics_are_due_after_more_than_ten_seconds() {
    assert!(!stats_report_due(0));
    assert!(!stats_report_due(10));
    assert!(stats_report_due(11));
}

#[test]
fn a_batch_of_events_is_answered_one_by_one_in_order() {
    let mut batched = ConnectionOrchestrator::new();
    let mut stepped = ConnectionOrchestrator::new();
    let events = vec![
        asks(1),
        stands(1),
        asks(2),
        stands(2),
        ends(1, 7),
        stands(3),
        ends(9, 0),
        event(2, ConnectionState::Connected, ConnectionState::Other),
    ];
    let steps = batched.on_server_events(&events);
    assert_eq!(steps.len(), events.len());
    for (step, next) in steps.iter().zip(events.iter()) {
        assert_eq!(*step, stepped.on_server_event(*next));
    }
    assert_eq!(
        steps[5].notice,
        Some(ServerNotice::PeerConnected { peer_id: 0 })
    );
    assert_eq!(batched.peer_count(), 2);
    assert_eq!(batched.peer_id_of(2), Some(1));
    assert_eq!(batched.peer_id_of(3), Some(0));
    assert_eq!(batched.free_peer_ids(), stepped.free_peer_ids());
    assert!(batched.on_server_events(&Vec::new()).is_empty());
}
