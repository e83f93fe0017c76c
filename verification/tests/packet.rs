use netsync::packet::{
    ChatPacketWire, DecodeError, GameStatePacketWire, IdAssignmentPacketWire, NullPacketWire,
    Packet, PacketId, PlayerDisconnectedPacketWire, WireVector3,
};

fn game_state() -> GameStatePacketWire {
    GameStatePacketWire {
        id: 7,
        player_position: WireVector3 {
            x_bits: 1.0f32.to_bits(),
            y_bits: (-2.5f32).to_bits(),
            z_bits: 0x0403_0201,
        },
        player_sight_direction: WireVector3 { x_bits: 0, y_bits: u32::MAX, z_bits: 0x8000_0000 },
        is_crouching: true,
    }
}

fn decode_error(data: &[u8]) -> DecodeError {
    match Packet::decode(data) {
        Ok(_) => panic!("the bytes should not have been a packet"),
        Err(error) => error,
    }
}

#[test]
fn tags_count_the_packet_types_from_zero() {
    let ids = [
        PacketId::IdAssignment,
        PacketId::GameState,
        PacketId::Chat,
        PacketId::PlayerDisconnected,
        PacketId::Null,
    ];
    for (tag, id) in ids.iter().enumerate() {
        assert_eq!(id.to_u8() as usize, tag);
        assert_eq!(PacketId::from_u8(tag as u8), Some(*id));
    }
    for tag in 5..=255u8 {
        assert_eq!(PacketId::from_u8(tag), None);
    }
}

#[test]
fn reliability_goes_by_packet_type() {
    assert!(PacketId::IdAssignment.is_reliable());
    assert!(!PacketId::GameState.is_reliable());
    assert!(PacketId::Chat.is_reliable());
    assert!(PacketId::PlayerDisconnected.is_reliable());
    assert!(!PacketId::Null.is_reliable());
    assert!(!Packet::GameState(game_state()).is_reliable());
    assert!(Packet::PlayerDisconnected(PlayerDisconnectedPacketWire { player_id: 1 }).is_reliable());
}

#[test]
fn an_id_assignment_is_the_own_id_and_then_the_others() {
    let packet = IdAssignmentPacketWire { id: 4, remote_ids: vec![0, 1, 9] };
    assert_eq!(packet.encode(), vec![4, 0, 1, 9]);
    let wire = Packet::IdAssignment(packet).encode();
    assert_eq!(wire, vec![0, 4, 0, 1, 9]);
    match Packet::decode(&wire) {
        Ok(Packet::IdAssignment(packet)) => {
            assert_eq!(packet.id, 4);
            assert_eq!(packet.remote_ids, vec![0, 1, 9]);
        }
        _ => panic!("no id assignment"),
    }
    match Packet::decode(&[0, 200]) {
        Ok(Packet::IdAssignment(packet)) => {
            assert_eq!(packet.id, 200);
            assert!(packet.remote_ids.is_empty());
        }
        _ => panic!("no id assignment"),
    }
    assert_eq!(decode_error(&[0]), DecodeError::IdAssignmentLength);
}

#[test]
fn a_game_state_is_twenty_six_bytes_little_endian() {
    let wire = game_state().encode();
    assert_eq!(wire.len(), 26);
    assert_eq!(wire[0], 7);
    assert_eq!(&wire[1..5], &1.0f32.to_le_bytes());
    assert_eq!(&wire[5..9], &(-2.5f32).to_le_bytes());
    assert_eq!(&wire[9..13], &[1, 2, 3, 4]);
    assert_eq!(&wire[13..17], &[0, 0, 0, 0]);
    assert_eq!(&wire[17..21], &[255, 255, 255, 255]);
    assert_eq!(&wire[21..25], &[0, 0, 0, 0x80]);
    assert_eq!(wire[25], 1);
    assert_eq!(GameStatePacketWire::decode(&wire), Ok(game_state()));
    let tagged = Packet::GameState(game_state()).encode();
    assert_eq!(tagged[0], 1);
    assert_eq!(&tagged[1..], &wire[..]);
    match Packet::decode(&tagged) {
        Ok(Packet::GameState(packet)) => {
            assert_eq!(packet, game_state());
            assert_eq!(f32::from_bits(packet.player_position.y_bits), -2.5);
        }
        _ => panic!("no game state"),
    }
}

#[test]
fn a_game_state_of_another_length_is_refused() {
    let mut wire = game_state().encode();
    wire.push(0);
    assert_eq!(GameStatePacketWire::decode(&wire), Err(DecodeError::GameStateLength));
    assert_eq!(GameStatePacketWire::decode(&wire[..25]), Err(DecodeError::GameStateLength));
    assert_eq!(decode_error(&[1]), DecodeError::GameStateLength);
}

#[test]
fn any_last_byte_but_zero_says_crouching() {
    let mut wire = game_state().encode();
    wire[25] = 0;
    assert_eq!(GameStatePacketWire::decode(&wire).map(|packet| packet.is_crouching), Ok(false));
    wire[25] = 2;
    assert_eq!(GameStatePacketWire::decode(&wire).map(|packet| packet.is_crouching), Ok(true));
    let standing = GameStatePacketWire { is_crouching: false, ..game_state() };
    assert_eq!(standing.encode()[25], 0);
}

#[test]
fn a_chat_packet_is_two_texts_closed_by_nul() {
    let packet = ChatPacketWire { username: "ann".to_string(), message: "héllo".to_string() };
    let payload = packet.encode();
    assert_eq!(payload, b"ann\0h\xc3\xa9llo\0".to_vec());
    let wire = Packet::Chat(packet).encode();
    assert_eq!(wire[0], 2);
    match Packet::decode(&wire) {
        Ok(Packet::Chat(packet)) => {
            assert_eq!(packet.username, "ann");
            assert_eq!(packet.message, "héllo");
        }
        _ => panic!("no chat packet"),
    }
}

#[test]
fn a_chat_packet_may_hold_empty_texts_and_ignores_what_follows() {
    match ChatPacketWire::decode(b"\0\0") {
        Ok(packet) => {
            assert_eq!(packet.username, "");
            assert_eq!(packet.message, "");
        }
        Err(_) => panic!("no chat packet"),
    }
    match ChatPacketWire::decode(b"a\0b\0rest\xff") {
        Ok(packet) => {
            assert_eq!(packet.username, "a");
            assert_eq!(packet.message, "b");
        }
        Err(_) => panic!("no chat packet"),
    }
}

#[test]
fn a_chat_packet_needs_both_terminators_and_utf8() {
    assert_eq!(decode_error(&[2]), DecodeError::MissingUsernameTerminator);
    assert_eq!(decode_error(b"\x02ann"), DecodeError::MissingUsernameTerminator);
    assert_eq!(decode_error(b"\x02a\xffn\0hi\0"), DecodeError::InvalidUsernameUtf8);
    assert_eq!(decode_error(b"\x02ann\0"), DecodeError::MissingMessageTerminator);
    assert_eq!(decode_error(b"\x02ann\0hi"), DecodeError::MissingMessageTerminator);
    assert_eq!(decode_error(b"\x02ann\0h\xc3\0"), DecodeError::InvalidMessageUtf8);
    // The user name is looked at before the message.
    assert_eq!(decode_error(b"\x02\xff\0hi"), DecodeError::InvalidUsernameUtf8);
}

#[test]
fn a_player_disconnect_is_one_byte() {
    let packet = PlayerDisconnectedPacketWire { player_id: 17 };
    assert_eq!(packet.encode(), vec![17]);
    assert_eq!(Packet::PlayerDisconnected(packet).encode(), vec![3, 17]);
    assert_eq!(PlayerDisconnectedPacketWire::decode(&[17]), Ok(packet));
    assert_eq!(decode_error(&[3]), DecodeError::PlayerDisconnectedLength);
    assert_eq!(decode_error(&[3, 1, 2]), DecodeError::PlayerDisconnectedLength);
}

#[test]
fn a_null_packet_is_its_tag_alone() {
    assert_eq!(NullPacketWire.encode(), Vec::<u8>::new());
    assert_eq!(Packet::Null(NullPacketWire).encode(), vec![4]);
    assert!(matches!(Packet::decode(&[4]), Ok(Packet::Null(_))));
    assert_eq!(decode_error(&[4, 0]), DecodeError::NullPayload);
}

#[test]
fn bytes_without_a_known_tag_are_no_packet() {
    assert_eq!(decode_error(&[]), DecodeError::EmptyPacket);
    assert_eq!(decode_error(&[5]), DecodeError::UnknownPacketId);
    assert_eq!(decode_error(&[255, 1, 2, 3]), DecodeError::UnknownPacketId);
}

#[test]
fn an_envelope_holds_tag_payload_and_reliability() {
    let envelope = Packet::IdAssignment(IdAssignmentPacketWire { id: 1, remote_ids: vec![2] })
        .envelope();
    assert_eq!(envelope.type_tag, 0);
    assert_eq!(envelope.payload, vec![1, 2]);
    assert!(envelope.reliable);
    assert_eq!(envelope.to_bytes(), vec![0, 1, 2]);
    let envelope = Packet::GameState(game_state()).envelope();
    assert_eq!(envelope.type_tag, 1);
    assert!(!envelope.reliable);
    assert_eq!(envelope.to_bytes().len(), 27);
}

#[test]
fn decode_errors_say_what_is_wrong() {
    assert_eq!(DecodeError::EmptyPacket.message(), "Empty packet data");
    assert_eq!(DecodeError::UnknownPacketId.message(), "Unknown packet ID");
    assert_eq!(
        DecodeError::IdAssignmentLength.message(),
        "Invalid id assignment packet data length"
    );
    assert_eq!(DecodeError::GameStateLength.message(), "Invalid game state packet data length");
    assert_eq!(
        DecodeError::MissingUsernameTerminator.message(),
        "Missing null terminator for username"
    );
    assert_eq!(DecodeError::InvalidUsernameUtf8.message(), "Invalid UTF-8 for username");
    assert_eq!(
        DecodeError::MissingMessageTerminator.message(),
        "Missing null terminator for message"
    );
    assert_eq!(DecodeError::InvalidMessageUtf8.message(), "Invalid UTF-8 for message");
    assert_eq!(
        DecodeError::PlayerDisconnectedLength.message(),
        "Invalid player disconnected packet data length"
    );
    assert_eq!(DecodeError::NullPayload.message(), "Null packet should have empty payload");
}
