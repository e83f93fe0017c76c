//! The wire format: one byte that names the packet's type, then the payload
//! that the type prescribes.
//!
//! Multi-byte numbers are little-endian. The text fields of a chat packet are
//! UTF-8, each closed by a NUL byte. Floating-point fields travel as their
//! IEEE-754 bit patterns, which this module carries but never interprets.

use vstd::prelude::*;
use vstd::bytes::{
    lemma_auto_spec_u32_to_from_le_bytes, spec_u32_from_le_bytes, spec_u32_to_le_bytes,
    u32_from_le_bytes, u32_to_le_bytes,
};
use vstd::slice::{slice_subrange, slice_to_vec};
use vstd::utf8::{decode_utf8, encode_utf8, valid_utf8};

verus! {

/// Why bytes are no packet.
#[derive(Clone, Copy, Debug, PartialEq, Eq)]
pub enum DecodeError {
    /// There are no bytes at all.
    EmptyPacket,
    /// The first byte names no packet type.
    UnknownPacketId,
    /// An id assignment without the byte of the receiver's id.
    IdAssignmentLength,
    /// A game state that is not 26 bytes long.
    GameStateLength,
    /// A chat packet whose user name is not closed by a NUL byte.
    MissingUsernameTerminator,
    /// A chat packet whose user name is not UTF-8.
    InvalidUsernameUtf8,
    /// A chat packet whose message is not closed by a NUL byte.
    MissingMessageTerminator,
    /// A chat packet whose message is not UTF-8.
    InvalidMessageUtf8,
    /// A player disconnect that is not exactly one byte long.
    PlayerDisconnectedLength,
    /// A null packet with a payload.
    NullPayload,
}

impl DecodeError {
    /// The error in words.
    pub fn message(&self) -> (text: &'static str)
        ensures
            text@ == match *self {
                DecodeError::EmptyPacket => "Empty packet data"@,
                DecodeError::UnknownPacketId => "Unknown packet ID"@,
                DecodeError::IdAssignmentLength => "Invalid id assignment packet data length"@,
                DecodeError::GameStateLength => "Invalid game state packet data length"@,
                DecodeError::MissingUsernameTerminator => "Missing null terminator for username"@,
                DecodeError::InvalidUsernameUtf8 => "Invalid UTF-8 for username"@,
                DecodeError::MissingMessageTerminator => "Missing null terminator for message"@,
                DecodeError::InvalidMessageUtf8 => "Invalid UTF-8 for message"@,
                DecodeError::PlayerDisconnectedLength => "Invalid player disconnected packet data length"@,
                DecodeError::NullPayload => "Null packet should have empty payload"@,
            },
    {
        match self {
            DecodeError::EmptyPacket => "Empty packet data",
            DecodeError::UnknownPacketId => "Unknown packet ID",
            DecodeError::IdAssignmentLength => "Invalid id assignment packet data length",
            DecodeError::GameStateLength => "Invalid game state packet data length",
            DecodeError::MissingUsernameTerminator => "Missing null terminator for username",
            DecodeError::InvalidUsernameUtf8 => "Invalid UTF-8 for username",
            DecodeError::MissingMessageTerminator => "Missing null terminator for message",
            DecodeError::InvalidMessageUtf8 => "Invalid UTF-8 for message",
            DecodeError::PlayerDisconnectedLength => "Invalid player disconnected packet data length",
            DecodeError::NullPayload => "Null packet should have empty payload",
        }
    }
}

/// The types of packet, in the order of their tags.
#[derive(Clone, Copy, Debug, PartialEq, Eq)]
pub enum PacketId {
    IdAssignment,
    GameState,
    Chat,
    PlayerDisconnected,
    Null,
}

impl PacketId {
    /// The tag of a packet type: its place in the list, counted from zero.
    pub open spec fn spec_tag(self) -> u8 {
        match self {
            PacketId::IdAssignment => 0,
            PacketId::GameState => 1,
            PacketId::Chat => 2,
            PacketId::PlayerDisconnected => 3,
            PacketId::Null => 4,
        }
    }

    /// The packet type that a tag names, if it names one.
    pub open spec fn spec_from_tag(tag: u8) -> Option<PacketId> {
        if tag == 0 {
            Some(PacketId::IdAssignment)
        } else if tag == 1 {
            Some(PacketId::GameState)
        } else if tag == 2 {
            Some(PacketId::Chat)
        } else if tag == 3 {
            Some(PacketId::PlayerDisconnected)
        } else if tag == 4 {
            Some(PacketId::Null)
        } else {
            None
        }
    }

    /// Whether packets of this type are sent reliably and in order.
    pub open spec fn spec_is_reliable(self) -> bool {
        match self {
            PacketId::IdAssignment => true,
            PacketId::GameState => false,
            PacketId::Chat => true,
            PacketId::PlayerDisconnected => true,
            PacketId::Null => false,
        }
    }

    /// The tag of this packet type.
    pub fn to_u8(self) -> (tag: u8)
        ensures
            tag == self.spec_tag(),
    {
        match self {
            PacketId::IdAssignment => 0,
            PacketId::GameState => 1,
            PacketId::Chat => 2,
            PacketId::PlayerDisconnected => 3,
            PacketId::Null => 4,
        }
    }

    /// The packet type that a tag names, if it names one.
    pub fn from_u8(tag: u8) -> (id: Option<PacketId>)
        ensures
            id == Self::spec_from_tag(tag),
    {
        match tag {
            0 => Some(PacketId::IdAssignment),
            1 => Some(PacketId::GameState),
            2 => Some(PacketId::Chat),
            3 => Some(PacketId::PlayerDisconnected),
            4 => Some(PacketId::Null),
            _ => None,
        }
    }

    /// Whether packets of this type are sent reliably and in order.
    pub fn is_reliable(self) -> (reliable: bool)
        ensures
            reliable == self.spec_is_reliable(),
    {
        match self {
            PacketId::IdAssignment => true,
            PacketId::GameState => false,
            PacketId::Chat => true,
            PacketId::PlayerDisconnected => true,
            PacketId::Null => false,
        }
    }
}

/// A tag names the packet type it was made from, and only tags below five
/// name one.
pub proof fn lemma_tag_round_trip(id: PacketId, tag: u8)
    ensures
        PacketId::spec_from_tag(id.spec_tag()) == Some(id),
        PacketId::spec_from_tag(tag) is Some <==> tag < 5,
        PacketId::spec_from_tag(tag) matches Some(named) ==> named.spec_tag() == tag,
{
}

/// Appends `bytes` to `out`.
fn append_bytes(out: &mut Vec<u8>, bytes: &[u8])
    ensures
        final(out)@ == old(out)@ + bytes@,
{
    let mut i: usize = 0;
    while i < bytes.len()
        invariant
            0 <= i <= bytes@.len(),
            out@ == old(out)@ + bytes@.subrange(0, i as int),
        decreases bytes@.len() - i,
    {
        out.push(bytes[i]);
        i += 1;
        assert(out@ =~= old(out)@ + bytes@.subrange(0, i as int));
    }
    assert(bytes@.subrange(0, i as int) =~= bytes@);
}

/// Tells a peer its own id and the ids of the peers that are already there.
pub struct IdAssignmentPacketWire {
    pub id: u8,
    pub remote_ids: Vec<u8>,
}

/// The mathematical content of an id assignment.
pub struct IdAssignmentModel {
    pub id: u8,
    pub remote_ids: Seq<u8>,
}

impl View for IdAssignmentPacketWire {
    type V = IdAssignmentModel;

    open spec fn view(&self) -> IdAssignmentModel {
        IdAssignmentModel { id: self.id, remote_ids: self.remote_ids@ }
    }
}

impl IdAssignmentModel {
    /// The payload: the receiver's id, then the other ids, one byte each.
    pub open spec fn encoded(self) -> Seq<u8> {
        seq![self.id] + self.remote_ids
    }

    /// The id assignment that a payload holds; it needs one byte at least.
    pub open spec fn decoded(bytes: Seq<u8>) -> Result<IdAssignmentModel, DecodeError> {
        if bytes.len() < 1 {
            Err(DecodeError::IdAssignmentLength)
        } else {
            Ok(IdAssignmentModel { id: bytes[0], remote_ids: bytes.subrange(1, bytes.len() as int) })
        }
    }
}

impl IdAssignmentPacketWire {
    /// The payload of this packet.
    pub fn encode(&self) -> (bytes: Vec<u8>)
        ensures
            bytes@ == self@.encoded(),
    {
        let mut data: Vec<u8> = Vec::new();
        data.push(self.id);
        append_bytes(&mut data, self.remote_ids.as_slice());
        assert(data@ =~= self@.encoded());
        data
    }

    /// The packet that a payload holds.
    pub fn decode(data: &[u8]) -> (packet: Result<Self, DecodeError>)
        ensures
            match packet {
                Ok(packet) => IdAssignmentModel::decoded(data@) == Ok::<_, DecodeError>(packet@),
                Err(error) => IdAssignmentModel::decoded(data@) == Err::<IdAssignmentModel, _>(
                    error,
                ),
            },
    {
        if data.len() < 1 {
            return Err(DecodeError::IdAssignmentLength);
        }
        let id = data[0];
        let remote_ids = slice_to_vec(slice_subrange(data, 1, data.len()));
        Ok(IdAssignmentPacketWire { id, remote_ids })
    }
}

/// Three floating-point coordinates, each as its IEEE-754 bit pattern.
#[derive(Clone, Copy, Debug, PartialEq, Eq)]
pub struct WireVector3 {
    pub x_bits: u32,
    pub y_bits: u32,
    pub z_bits: u32,
}

impl WireVector3 {
    /// The twelve bytes of the three coordinates.
    pub open spec fn encoded(self) -> Seq<u8> {
        spec_u32_to_le_bytes(self.x_bits) + spec_u32_to_le_bytes(self.y_bits)
            + spec_u32_to_le_bytes(self.z_bits)
    }

    /// The three coordinates that twelve bytes hold.
    pub open spec fn decoded(bytes: Seq<u8>) -> WireVector3 {
        WireVector3 {
            x_bits: spec_u32_from_le_bytes(bytes.subrange(0, 4)),
            y_bits: spec_u32_from_le_bytes(bytes.subrange(4, 8)),
            z_bits: spec_u32_from_le_bytes(bytes.subrange(8, 12)),
        }
    }

    fn encode_into(&self, out: &mut Vec<u8>)
        ensures
            final(out)@ == old(out)@ + self.encoded(),
    {
        let x = u32_to_le_bytes(self.x_bits);
        let y = u32_to_le_bytes(self.y_bits);
        let z = u32_to_le_bytes(self.z_bits);
        append_bytes(out, x.as_slice());
        append_bytes(out, y.as_slice());
        append_bytes(out, z.as_slice());
        assert(out@ =~= old(out)@ + self.encoded());
    }

    fn decode(data: &[u8]) -> (vector: WireVector3)
        requires
            data@.len() == 12,
        ensures
            vector == Self::decoded(data@),
    {
        WireVector3 {
            x_bits: u32_from_le_bytes(slice_subrange(data, 0, 4)),
            y_bits: u32_from_le_bytes(slice_subrange(data, 4, 8)),
            z_bits: u32_from_le_bytes(slice_subrange(data, 8, 12)),
        }
    }
}

/// The state of one player: who, where, looking where, crouching or not.
#[derive(Clone, Copy, Debug, PartialEq, Eq)]
pub struct GameStatePacketWire {
    pub id: u8,
    pub player_position: WireVector3,
    pub player_sight_direction: WireVector3,
    pub is_crouching: bool,
}

impl GameStatePacketWire {
    /// The payload: the id, the position, the direction of sight, and one byte
    /// that is 1 for crouching and 0 otherwise; 26 bytes in all.
    pub open spec fn encoded(self) -> Seq<u8> {
        seq![self.id] + self.player_position.encoded() + self.player_sight_direction.encoded()
            + seq![
            if self.is_crouching {
                1u8
            } else {
                0u8
            },
        ]
    }

    /// The game state that a payload holds; it must be 26 bytes long. Any
    /// last byte but zero says crouching.
    pub open spec fn decoded(bytes: Seq<u8>) -> Result<GameStatePacketWire, DecodeError> {
        if bytes.len() != 26 {
            Err(DecodeError::GameStateLength)
        } else {
            Ok(
                GameStatePacketWire {
                    id: bytes[0],
                    player_position: WireVector3::decoded(bytes.subrange(1, 13)),
                    player_sight_direction: WireVector3::decoded(bytes.subrange(13, 25)),
                    is_crouching: bytes[25] != 0,
                },
            )
        }
    }

    /// The payload of this packet.
    pub fn encode(&self) -> (bytes: Vec<u8>)
        ensures
            bytes@ == self.encoded(),
            bytes@.len() == 26,
    {
        let mut data: Vec<u8> = Vec::with_capacity(26);
        data.push(self.id);
        self.player_position.encode_into(&mut data);
        self.player_sight_direction.encode_into(&mut data);
        data.push(
            if self.is_crouching {
                1
            } else {
                0
            },
        );
        proof {
            lemma_auto_spec_u32_to_from_le_bytes();
            assert(data@ =~= self.encoded());
        }
        data
    }

    /// The packet that a payload holds.
    pub fn decode(data: &[u8]) -> (packet: Result<Self, DecodeError>)
        ensures
            packet == Self::decoded(data@),
    {
        if data.len() != 26 {
            return Err(DecodeError::GameStateLength);
        }
        Ok(
            GameStatePacketWire {
                id: data[0],
                player_position: WireVector3::decode(slice_subrange(data, 1, 13)),
                player_sight_direction: WireVector3::decode(slice_subrange(data, 13, 25)),
                is_crouching: data[25] != 0,
            },
        )
    }
}

/// Says that a player has left.
#[derive(Clone, Copy, Debug, PartialEq, Eq)]
pub struct PlayerDisconnectedPacketWire {
    pub player_id: u8,
}

impl PlayerDisconnectedPacketWire {
    /// The payload: the player's id, one byte.
    pub open spec fn encoded(self) -> Seq<u8> {
        seq![self.player_id]
    }

    /// The packet that a payload holds; it must be exactly one byte long.
    pub open spec fn decoded(bytes: Seq<u8>) -> Result<PlayerDisconnectedPacketWire, DecodeError> {
        if bytes.len() != 1 {
            Err(DecodeError::PlayerDisconnectedLength)
        } else {
            Ok(PlayerDisconnectedPacketWire { player_id: bytes[0] })
        }
    }

    /// The payload of this packet.
    pub fn encode(&self) -> (bytes: Vec<u8>)
        ensures
            bytes@ == self.encoded(),
    {
        let mut data: Vec<u8> = Vec::new();
        data.push(self.player_id);
        assert(data@ =~= self.encoded());
        data
    }

    /// The packet that a payload holds.
    pub fn decode(data: &[u8]) -> (packet: Result<Self, DecodeError>)
        ensures
            packet == Self::decoded(data@),
    {
        if data.len() != 1 {
            return Err(DecodeError::PlayerDisconnectedLength);
        }
        Ok(PlayerDisconnectedPacketWire { player_id: data[0] })
    }
}

/// A packet without content.
#[derive(Clone, Copy, Debug, PartialEq, Eq)]
pub struct NullPacketWire;

impl NullPacketWire {
    /// The packet that a payload holds; the payload must be empty.
    pub open spec fn decoded(bytes: Seq<u8>) -> Result<NullPacketWire, DecodeError> {
        if bytes.len() == 0 {
            Ok(NullPacketWire)
        } else {
            Err(DecodeError::NullPayload)
        }
    }

    /// The payload of this packet: nothing.
    pub fn encode(&self) -> (bytes: Vec<u8>)
        ensures
            bytes@ == Seq::<u8>::empty(),
    {
        Vec::new()
    }

    /// The packet that a payload holds.
    pub fn decode(data: &[u8]) -> (packet: Result<Self, DecodeError>)
        ensures
            packet == Self::decoded(data@),
    {
        if data.len() == 0 {
            Ok(NullPacketWire)
        } else {
            Err(DecodeError::NullPayload)
        }
    }
}

/// Calls `String::from_utf8`. The contract claims what its documentation
/// says: the bytes become a string exactly when they are valid UTF-8, and the
/// string then holds the characters that they encode.
#[verifier::external_body]
fn string_from_utf8(bytes: Vec<u8>) -> (text: Option<String>)
    ensures
        text is Some <==> valid_utf8(bytes@),
        text matches Some(text) ==> text@ == decode_utf8(bytes@),
{
    String::from_utf8(bytes).ok()
}

/// The place of the first NUL byte at or after `from`, if there is one.
pub open spec fn spec_first_nul(bytes: Seq<u8>, from: int) -> Option<int>
    decreases bytes.len() - from,
{
    if from < 0 || from >= bytes.len() {
        None
    } else if bytes[from] == 0 {
        Some(from)
    } else {
        spec_first_nul(bytes, from + 1)
    }
}

/// What `spec_first_nul` finds is a NUL byte with none before it; when it
/// finds nothing, there is none.
pub proof fn lemma_first_nul(bytes: Seq<u8>, from: int)
    requires
        0 <= from <= bytes.len(),
    ensures
        match spec_first_nul(bytes, from) {
            Some(found) => from <= found < bytes.len() && bytes[found] == 0 && forall|i: int|
                from <= i < found ==> bytes[i] != 0,
            None => forall|i: int| from <= i < bytes.len() ==> bytes[i] != 0,
        },
    decreases bytes.len() - from,
{
    if from < bytes.len() && bytes[from] != 0 {
        lemma_first_nul(bytes, from + 1);
    }
}

/// The place of the first NUL byte at or after `from`, if there is one.
fn find_nul(data: &[u8], from: usize) -> (found: Option<usize>)
    requires
        from <= data@.len(),
    ensures
        match found {
            Some(found) => spec_first_nul(data@, from as int) == Some(found as int),
            None => spec_first_nul(data@, from as int) is None,
        },
{
    let mut i: usize = from;
    while i < data.len()
        invariant
            from <= i <= data@.len(),
            spec_first_nul(data@, from as int) == spec_first_nul(data@, i as int),
        decreases data@.len() - i,
    {
        if data[i] == 0 {
            return Some(i);
        }
        i += 1;
    }
    None
}

/// A line of chat: who says it, and what.
pub struct ChatPacketWire {
    pub username: String,
    pub message: String,
}

/// The mathematical content of a chat packet.
pub struct ChatModel {
    pub username: Seq<char>,
    pub message: Seq<char>,
}

impl View for ChatPacketWire {
    type V = ChatModel;

    open spec fn view(&self) -> ChatModel {
        ChatModel { username: self.username@, message: self.message@ }
    }
}

impl ChatModel {
    /// The payload: the user name and the message in UTF-8, each followed by a
    /// NUL byte.
    pub open spec fn encoded(self) -> Seq<u8> {
        encode_utf8(self.username) + seq![0u8] + encode_utf8(self.message) + seq![0u8]
    }

    /// The chat packet that a payload holds. The user name runs up to the first
    /// NUL byte, the message from there up to the next; both must be UTF-8.
    /// What follows the second NUL byte is not looked at.
    pub open spec fn decoded(bytes: Seq<u8>) -> Result<ChatModel, DecodeError> {
        match spec_first_nul(bytes, 0) {
            None => Err(DecodeError::MissingUsernameTerminator),
            Some(name_end) => if !valid_utf8(bytes.subrange(0, name_end)) {
                Err(DecodeError::InvalidUsernameUtf8)
            } else {
                match spec_first_nul(bytes, name_end + 1) {
                    None => Err(DecodeError::MissingMessageTerminator),
                    Some(message_end) => if !valid_utf8(
                        bytes.subrange(name_end + 1, message_end),
                    ) {
                        Err(DecodeError::InvalidMessageUtf8)
                    } else {
                        Ok(
                            ChatModel {
                                username: decode_utf8(bytes.subrange(0, name_end)),
                                message: decode_utf8(bytes.subrange(name_end + 1, message_end)),
                            },
                        )
                    },
                }
            },
        }
    }
}

impl ChatPacketWire {
    /// The payload of this packet.
    pub fn encode(&self) -> (bytes: Vec<u8>)
        ensures
            bytes@ == self@.encoded(),
    {
        let mut data: Vec<u8> = Vec::new();
        append_bytes(&mut data, self.username.as_str().as_bytes());
        data.push(0);
        append_bytes(&mut data, self.message.as_str().as_bytes());
        data.push(0);
        assert(data@ =~= self@.encoded());
        data
    }

    /// The packet that a payload holds.
    pub fn decode(data: &[u8]) -> (packet: Result<Self, DecodeError>)
        ensures
            match packet {
                Ok(packet) => ChatModel::decoded(data@) == Ok::<_, DecodeError>(packet@),
                Err(error) => ChatModel::decoded(data@) == Err::<ChatModel, _>(error),
            },
    {
        let name_end = match find_nul(data, 0) {
            Some(name_end) => name_end,
            None => {
                return Err(DecodeError::MissingUsernameTerminator);
            },
        };
        proof {
            lemma_first_nul(data@, 0);
            assert(name_end < data.len());
        }
        let username = match string_from_utf8(slice_to_vec(slice_subrange(data, 0, name_end))) {
            Some(username) => username,
            None => {
                return Err(DecodeError::InvalidUsernameUtf8);
            },
        };
        let message_end = match find_nul(data, name_end + 1) {
            Some(message_end) => message_end,
            None => {
                return Err(DecodeError::MissingMessageTerminator);
            },
        };
        proof {
            lemma_first_nul(data@, name_end + 1);
        }
        let message = match string_from_utf8(
            slice_to_vec(slice_subrange(data, name_end + 1, message_end)),
        ) {
            Some(message) => message,
            None => {
                return Err(DecodeError::InvalidMessageUtf8);
            },
        };
        Ok(ChatPacketWire { username, message })
    }
}

/// A packet of any type.
pub enum Packet {
    IdAssignment(IdAssignmentPacketWire),
    GameState(GameStatePacketWire),
    Chat(ChatPacketWire),
    PlayerDisconnected(PlayerDisconnectedPacketWire),
    Null(NullPacketWire),
}

/// The mathematical content of a packet.
pub enum PacketModel {
    IdAssignment(IdAssignmentModel),
    GameState(GameStatePacketWire),
    Chat(ChatModel),
    PlayerDisconnected(PlayerDisconnectedPacketWire),
    Null(NullPacketWire),
}

impl View for Packet {
    type V = PacketModel;

    open spec fn view(&self) -> PacketModel {
        match *self {
            Packet::IdAssignment(packet) => PacketModel::IdAssignment(packet@),
            Packet::GameState(packet) => PacketModel::GameState(packet),
            Packet::Chat(packet) => PacketModel::Chat(packet@),
            Packet::PlayerDisconnected(packet) => PacketModel::PlayerDisconnected(packet),
            Packet::Null(packet) => PacketModel::Null(packet),
        }
    }
}

impl PacketModel {
    /// The type of this packet.
    pub open spec fn id(self) -> PacketId {
        match self {
            PacketModel::IdAssignment(_) => PacketId::IdAssignment,
            PacketModel::GameState(_) => PacketId::GameState,
            PacketModel::Chat(_) => PacketId::Chat,
            PacketModel::PlayerDisconnected(_) => PacketId::PlayerDisconnected,
            PacketModel::Null(_) => PacketId::Null,
        }
    }

    /// The payload that the packet's type prescribes.
    pub open spec fn payload(self) -> Seq<u8> {
        match self {
            PacketModel::IdAssignment(packet) => packet.encoded(),
            PacketModel::GameState(packet) => packet.encoded(),
            PacketModel::Chat(packet) => packet.encoded(),
            PacketModel::PlayerDisconnected(packet) => packet.encoded(),
            PacketModel::Null(_) => Seq::empty(),
        }
    }

    /// The packet on the wire: the tag of its type, then its payload.
    pub open spec fn encoded(self) -> Seq<u8> {
        seq![self.id().spec_tag()] + self.payload()
    }

    /// The packet of type `id` that a payload holds.
    pub open spec fn decoded_payload(id: PacketId, payload: Seq<u8>) -> Result<
        PacketModel,
        DecodeError,
    > {
        match id {
            PacketId::IdAssignment => match IdAssignmentModel::decoded(payload) {
                Ok(packet) => Ok(PacketModel::IdAssignment(packet)),
                Err(error) => Err(error),
            },
            PacketId::GameState => match GameStatePacketWire::decoded(payload) {
                Ok(packet) => Ok(PacketModel::GameState(packet)),
                Err(error) => Err(error),
            },
            PacketId::Chat => match ChatModel::decoded(payload) {
                Ok(packet) => Ok(PacketModel::Chat(packet)),
                Err(error) => Err(error),
            },
            PacketId::PlayerDisconnected => match PlayerDisconnectedPacketWire::decoded(payload) {
                Ok(packet) => Ok(PacketModel::PlayerDisconnected(packet)),
                Err(error) => Err(error),
            },
            PacketId::Null => match NullPacketWire::decoded(payload) {
                Ok(packet) => Ok(PacketModel::Null(packet)),
                Err(error) => Err(error),
            },
        }
    }

    /// The packet that bytes from the wire hold: there must be a first byte, it
    /// must name a packet type, and the rest must be a payload of that type.
    pub open spec fn decoded(bytes: Seq<u8>) -> Result<PacketModel, DecodeError> {
        if bytes.len() == 0 {
            Err(DecodeError::EmptyPacket)
        } else {
            match PacketId::spec_from_tag(bytes[0]) {
                None => Err(DecodeError::UnknownPacketId),
                Some(id) => Self::decoded_payload(id, bytes.subrange(1, bytes.len() as int)),
            }
        }
    }
}

/// A packet ready for the transport.
pub struct PacketEnvelope {
    /// The tag of the packet's type.
    pub type_tag: u8,
    /// The payload that the type prescribes.
    pub payload: Vec<u8>,
    /// Whether the packet is to be sent reliably and in order.
    pub reliable: bool,
}

impl PacketEnvelope {
    /// The bytes that go over the wire: the tag, then the payload.
    pub open spec fn spec_bytes(&self) -> Seq<u8> {
        seq![self.type_tag] + self.payload@
    }

    /// The bytes that go over the wire: the tag, then the payload.
    pub fn to_bytes(&self) -> (bytes: Vec<u8>)
        ensures
            bytes@ == self.spec_bytes(),
    {
        let mut bytes: Vec<u8> = Vec::new();
        bytes.push(self.type_tag);
        append_bytes(&mut bytes, self.payload.as_slice());
        assert(bytes@ =~= self.spec_bytes());
        bytes
    }
}

impl Packet {
    /// The type of this packet.
    pub fn id(&self) -> (id: PacketId)
        ensures
            id == self@.id(),
    {
        match self {
            Packet::IdAssignment(_) => PacketId::IdAssignment,
            Packet::GameState(_) => PacketId::GameState,
            Packet::Chat(_) => PacketId::Chat,
            Packet::PlayerDisconnected(_) => PacketId::PlayerDisconnected,
            Packet::Null(_) => PacketId::Null,
        }
    }

    /// Whether this packet is sent reliably and in order.
    pub fn is_reliable(&self) -> (reliable: bool)
        ensures
            reliable == self@.id().spec_is_reliable(),
    {
        self.id().is_reliable()
    }

    /// This packet ready for the transport.
    pub fn envelope(&self) -> (envelope: PacketEnvelope)
        ensures
            envelope.type_tag == self@.id().spec_tag(),
            envelope.payload@ == self@.payload(),
            envelope.reliable == self@.id().spec_is_reliable(),
            envelope.spec_bytes() == self@.encoded(),
    {
        let payload = match self {
            Packet::IdAssignment(packet) => packet.encode(),
            Packet::GameState(packet) => packet.encode(),
            Packet::Chat(packet) => packet.encode(),
            Packet::PlayerDisconnected(packet) => packet.encode(),
            Packet::Null(packet) => packet.encode(),
        };
        PacketEnvelope { type_tag: self.id().to_u8(), payload, reliable: self.is_reliable() }
    }

    /// The packet on the wire: the tag of its type, then its payload.
    pub fn encode(&self) -> (bytes: Vec<u8>)
        ensures
            bytes@ == self@.encoded(),
    {
        self.envelope().to_bytes()
    }

    /// The packet that bytes from the wire hold.
    pub fn decode(data: &[u8]) -> (packet: Result<Self, DecodeError>)
        ensures
            match packet {
                Ok(packet) => PacketModel::decoded(data@) == Ok::<_, DecodeError>(packet@),
                Err(error) => PacketModel::decoded(data@) == Err::<PacketModel, _>(error),
            },
    {
        if data.len() == 0 {
            return Err(DecodeError::EmptyPacket);
        }
        let id_byte = data[0];
        let packet_data = slice_subrange(data, 1, data.len());
        let packet_id = match PacketId::from_u8(id_byte) {
            Some(packet_id) => packet_id,
            None => {
                return Err(DecodeError::UnknownPacketId);
            },
        };
        match packet_id {
            PacketId::IdAssignment => match IdAssignmentPacketWire::decode(packet_data) {
                Ok(packet) => Ok(Packet::IdAssignment(packet)),
                Err(error) => Err(error),
            },
            PacketId::GameState => match GameStatePacketWire::decode(packet_data) {
                Ok(packet) => Ok(Packet::GameState(packet)),
                Err(error) => Err(error),
            },
            PacketId::Chat => match ChatPacketWire::decode(packet_data) {
                Ok(packet) => Ok(Packet::Chat(packet)),
                Err(error) => Err(error),
            },
            PacketId::PlayerDisconnected => match PlayerDisconnectedPacketWire::decode(
                packet_data,
            ) {
                Ok(packet) => Ok(Packet::PlayerDisconnected(packet)),
                Err(error) => Err(error),
            },
            PacketId::Null => match NullPacketWire::decode(packet_data) {
                Ok(packet) => Ok(Packet::Null(packet)),
                Err(error) => Err(error),
            },
        }
    }
}

/// In bytes without a NUL byte followed by one, the first NUL byte is the one
/// that follows.
pub proof fn lemma_first_nul_after_text(text: Seq<u8>, rest: Seq<u8>, from: int)
    requires
        0 <= from <= text.len(),
        !text.contains(0u8),
    ensures
        spec_first_nul(text + seq![0u8] + rest, from) == Some(text.len() as int),
    decreases text.len() - from,
{
    let bytes = text + seq![0u8] + rest;
    if from < text.len() {
        assert(bytes[from] == text[from]);
        assert(text.contains(text[from]));
        lemma_first_nul_after_text(text, rest, from + 1);
    } else {
        assert(bytes[from] == 0u8);
    }
}

/// The first NUL byte at or after `from` is found the same whether or not
/// bytes stand before `from`.
pub proof fn lemma_first_nul_shifted(front: Seq<u8>, back: Seq<u8>, from: int)
    requires
        0 <= from <= back.len(),
    ensures
        spec_first_nul(front + back, front.len() + from) == match spec_first_nul(back, from) {
            Some(found) => Some(front.len() + found),
            None => None,
        },
    decreases back.len() - from,
{
    let bytes = front + back;
    if from < back.len() {
        assert(bytes[front.len() + from] == back[from]);
        if back[from] != 0 {
            lemma_first_nul_shifted(front, back, from + 1);
        }
    }
}

/// Decoding undoes encoding: a packet that was put on the wire is read back
/// as it was. For a chat packet this needs text that holds no NUL, which would
/// end it early.
pub proof fn lemma_decode_inverts_encode(packet: PacketModel)
    requires
        packet matches PacketModel::Chat(chat) ==> !encode_utf8(chat.username).contains(0u8)
            && !encode_utf8(chat.message).contains(0u8),
    ensures
        PacketModel::decoded(packet.encoded()) == Ok::<_, DecodeError>(packet),
{
    let bytes = packet.encoded();
    let payload = bytes.subrange(1, bytes.len() as int);
    assert(payload =~= packet.payload());
    assert(bytes[0] == packet.id().spec_tag());
    match packet {
        PacketModel::IdAssignment(inner) => {
            assert(payload.subrange(1, payload.len() as int) =~= inner.remote_ids);
        },
        PacketModel::GameState(inner) => {
            lemma_auto_spec_u32_to_from_le_bytes();
            let position = payload.subrange(1, 13);
            let sight = payload.subrange(13, 25);
            assert(position =~= inner.player_position.encoded());
            assert(sight =~= inner.player_sight_direction.encoded());
            assert(position.subrange(0, 4) =~= spec_u32_to_le_bytes(inner.player_position.x_bits));
            assert(position.subrange(4, 8) =~= spec_u32_to_le_bytes(inner.player_position.y_bits));
            assert(position.subrange(8, 12) =~= spec_u32_to_le_bytes(
                inner.player_position.z_bits,
            ));
            assert(sight.subrange(0, 4) =~= spec_u32_to_le_bytes(
                inner.player_sight_direction.x_bits,
            ));
            assert(sight.subrange(4, 8) =~= spec_u32_to_le_bytes(
                inner.player_sight_direction.y_bits,
            ));
            assert(sight.subrange(8, 12) =~= spec_u32_to_le_bytes(
                inner.player_sight_direction.z_bits,
            ));
        },
        PacketModel::Chat(inner) => {
            let name = encode_utf8(inner.username);
            let text = encode_utf8(inner.message);
            let after_name = text + seq![0u8];
            assert(payload =~= name + seq![0u8] + after_name);
            lemma_first_nul_after_text(name, after_name, 0);
            assert(payload.subrange(0, name.len() as int) =~= name);
            vstd::utf8::encode_utf8_valid_utf8(inner.username);
            vstd::utf8::encode_utf8_decode_utf8(inner.username);
            let front = name + seq![0u8];
            assert(payload =~= front + after_name);
            assert(after_name =~= text + seq![0u8] + Seq::<u8>::empty());
            lemma_first_nul_after_text(text, Seq::<u8>::empty(), 0);
            lemma_first_nul_shifted(front, after_name, 0);
            assert(payload.subrange(name.len() as int + 1, name.len() as int + 1 + text.len() as int) =~= text);
            vstd::utf8::encode_utf8_valid_utf8(inner.message);
            vstd::utf8::encode_utf8_decode_utf8(inner.message);
        },
        PacketModel::PlayerDisconnected(inner) => {},
        PacketModel::Null(inner) => {},
    }
}

} // verus!
