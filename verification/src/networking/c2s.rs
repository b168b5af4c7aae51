//! The packets that a client sends.

use crate::block::{Block, BLOCK_COUNT};
use crate::event::{PlayerJoinEvent, PlayerMessageEvent, PlayerMoveEvent, SetBlockEvent};
use crate::networking::endian::{
    lemma_i16_be_bytes_round_trip, lemma_i16_be_round_trip, spec_i16_from_be, spec_i16_to_be,
};
use crate::networking::error::PacketError;
use crate::networking::fixed::{
    lemma_i8_byte_round_trip, spec_i8_from_byte, spec_i8_to_byte, Byte, FShort, SByte, Short,
};
use crate::networking::reader::{spec_rest, PacketReader};
use crate::networking::string::{spec_trim, utf8_lossy, PacketString};
use crate::networking::writer::{lemma_write_twice, spec_write_at, PacketWriter};
use crate::player::{Position, Rotation, SessionHandle};
use crate::world::Coords;
use vstd::prelude::*;
use vstd::utf8::{decode_utf8, valid_utf8};

verus! {

/// Sent by a player who joins: the protocol version (7 for every current
/// client), the player's name, a verification key, and a last byte that is
/// `0x42` where the client supports protocol extensions.
#[derive(Debug, Clone, Copy)]
pub struct PlayerIdentPacket {
    pub protocol_version: Byte,
    pub username: PacketString,
    pub verification_key: PacketString,
    pub padding: Byte,
}

impl PlayerIdentPacket {
    /// Whether the fields are the ones that the 130 bytes `bytes` hold.
    pub open spec fn spec_matches(&self, bytes: Seq<u8>) -> bool {
        &&& self.protocol_version == bytes[0]
        &&& self.username@ == bytes.subrange(1, 65)
        &&& self.verification_key@ == bytes.subrange(65, 129)
        &&& self.padding == bytes[129]
    }

    /// Reads the packet's 130 bytes. A short read is a malformed packet.
    pub fn deserialise(reader: &mut PacketReader) -> (packet: Result<
        PlayerIdentPacket,
        PacketError,
    >)
        ensures
            final(reader).remaining() == spec_rest(old(reader).remaining(), 130),
            match packet {
                Ok(p) => old(reader).remaining().len() >= 130 && p.spec_matches(
                    old(reader).remaining().take(130),
                ),
                Err(e) => old(reader).remaining().len() < 130 && e
                    == PacketError::MalformedPacket,
            },
    {
        let ghost bytes = old(reader).remaining();
        let protocol_version = match reader.read_byte() {
            Ok(protocol_version) => protocol_version,
            Err(e) => {
                return Err(e);
            },
        };
        assert(reader.remaining() =~= bytes.skip(1));
        let username = match reader.read_packet_string() {
            Ok(username) => username,
            Err(e) => {
                return Err(e);
            },
        };
        assert(reader.remaining() =~= bytes.skip(65));
        let verification_key = match reader.read_packet_string() {
            Ok(verification_key) => verification_key,
            Err(e) => {
                return Err(e);
            },
        };
        assert(reader.remaining() =~= bytes.skip(129));
        let padding = match reader.read_byte() {
            Ok(padding) => padding,
            Err(e) => {
                return Err(e);
            },
        };
        assert(reader.remaining() =~= bytes.skip(130));
        assert(username@ =~= bytes.take(130).subrange(1, 65));
        assert(verification_key@ =~= bytes.take(130).subrange(65, 129));
        Ok(PlayerIdentPacket { protocol_version, username, verification_key, padding })
    }

    /// The packet's fields as they stand on the wire, after the opcode.
    pub open spec fn spec_payload(&self) -> Seq<u8> {
        seq![self.protocol_version] + self.username@ + self.verification_key@
            + seq![self.padding]
    }
}

impl PlayerIdentPacket {
    /// Writes the packet's fields, in order and without padding.
    pub fn serialise(&self, writer: &mut PacketWriter) -> (done: Result<(), PacketError>)
        requires
            old(writer).wf(),
        ensures
            final(writer).wf(),
            done is Ok,
            final(writer).buffer() == spec_write_at(
                old(writer).buffer(),
                old(writer).position() as int,
                self.spec_payload(),
            ),
            final(writer).position() == old(writer).position() + self.spec_payload().len(),
    {
        let _ = writer.write_byte(self.protocol_version);
        let ghost mut written = seq![self.protocol_version];
        let _ = writer.write_packet_string(&self.username);
        proof {
            lemma_write_twice(
                old(writer).buffer(),
                old(writer).position() as int,
                written,
                self.username@,
            );
            written = written + self.username@;
        }
        let _ = writer.write_packet_string(&self.verification_key);
        proof {
            lemma_write_twice(
                old(writer).buffer(),
                old(writer).position() as int,
                written,
                self.verification_key@,
            );
            written = written + self.verification_key@;
        }
        let _ = writer.write_byte(self.padding);
        proof {
            lemma_write_twice(
                old(writer).buffer(),
                old(writer).position() as int,
                written,
                seq![self.padding],
            );
            written = written + seq![self.padding];
        }
        Ok(())
    }
}

/// The bytes written for a `PlayerIdentPacket` hold its fields, and no other
/// `PlayerIdentPacket` is read from them.
pub proof fn lemma_player_ident_round_trip(packet: PlayerIdentPacket, decoded: PlayerIdentPacket)
    ensures
        packet.spec_payload().len() == 130,
        packet.spec_matches(packet.spec_payload()),
        decoded.spec_matches(packet.spec_payload()) ==> decoded == packet,
{
    let payload = packet.spec_payload();
    assert(payload.subrange(1, 65) =~= packet.username@);
    assert(payload.subrange(65, 129) =~= packet.verification_key@);
    if decoded.spec_matches(payload) {
        assert(decoded.username.0 =~= packet.username.0);
        assert(decoded.verification_key.0 =~= packet.verification_key.0);
    }
}

/// The fields read from 130 bytes are written as those bytes.
pub proof fn lemma_player_ident_bytes_round_trip(packet: PlayerIdentPacket, bytes: Seq<u8>)
    requires
        bytes.len() == 130,
        packet.spec_matches(bytes),
    ensures
        packet.spec_payload() == bytes,
{
    assert(packet.spec_payload() =~= bytes);
}

/// Sent when a player changes a block. `mode` is 1 where a block was placed
/// and 0 where one was destroyed; `block_type` is the block the player
/// holds, also when destroying.
#[derive(Debug, Clone, Copy, PartialEq, Eq, Structural)]
pub struct SetBlockPacket {
    pub x: Short,
    pub y: Short,
    pub z: Short,
    pub mode: Byte,
    pub block_type: Byte,
}

impl SetBlockPacket {
    /// Whether the fields are the ones that the 8 bytes `bytes` hold.
    pub open spec fn spec_matches(&self, bytes: Seq<u8>) -> bool {
        &&& self.x == spec_i16_from_be(bytes[0], bytes[1])
        &&& self.y == spec_i16_from_be(bytes[2], bytes[3])
        &&& self.z == spec_i16_from_be(bytes[4], bytes[5])
        &&& self.mode == bytes[6]
        &&& self.block_type == bytes[7]
    }

    /// Reads the packet's 8 bytes. A short read is a malformed packet, and
    /// a last byte that names no block is an invalid block.
    pub fn deserialise(reader: &mut PacketReader) -> (packet: Result<
        SetBlockPacket,
        PacketError,
    >)
        ensures
            final(reader).remaining() == spec_rest(old(reader).remaining(), 8),
            match packet {
                Ok(p) => {
                    &&& old(reader).remaining().len() >= 8
                    &&& p.spec_matches(old(reader).remaining().take(8))
                    &&& p.block_type < BLOCK_COUNT
                },
                Err(e) => if old(reader).remaining().len() < 8 {
                    e == PacketError::MalformedPacket
                } else {
                    old(reader).remaining()[7] >= BLOCK_COUNT && e == PacketError::InvalidBlock
                },
            },
    {
        let ghost bytes = old(reader).remaining();
        let x = match reader.read_short() {
            Ok(x) => x,
            Err(e) => {
                return Err(e);
            },
        };
        assert(reader.remaining() =~= bytes.skip(2));
        let y = match reader.read_short() {
            Ok(y) => y,
            Err(e) => {
                return Err(e);
            },
        };
        assert(reader.remaining() =~= bytes.skip(4));
        let z = match reader.read_short() {
            Ok(z) => z,
            Err(e) => {
                return Err(e);
            },
        };
        assert(reader.remaining() =~= bytes.skip(6));
        let mode = match reader.read_byte() {
            Ok(mode) => mode,
            Err(e) => {
                return Err(e);
            },
        };
        assert(reader.remaining() =~= bytes.skip(7));
        let block_type = match reader.read_byte() {
            Ok(block_type) => block_type,
            Err(e) => {
                return Err(e);
            },
        };
        assert(reader.remaining() =~= bytes.skip(8));
        if block_type >= BLOCK_COUNT {
            return Err(PacketError::InvalidBlock);
        }
        Ok(SetBlockPacket { x, y, z, mode, block_type })
    }

    /// The packet's fields as they stand on the wire, after the opcode.
    pub open spec fn spec_payload(&self) -> Seq<u8> {
        spec_i16_to_be(self.x) + spec_i16_to_be(self.y) + spec_i16_to_be(self.z)
            + seq![self.mode] + seq![self.block_type]
    }
}

impl SetBlockPacket {
    /// Writes the packet's fields, in order and without padding.
    pub fn serialise(&self, writer: &mut PacketWriter) -> (done: Result<(), PacketError>)
        requires
            old(writer).wf(),
        ensures
            final(writer).wf(),
            done is Ok,
            final(writer).buffer() == spec_write_at(
                old(writer).buffer(),
                old(writer).position() as int,
                self.spec_payload(),
            ),
            final(writer).position() == old(writer).position() + self.spec_payload().len(),
    {
        let _ = writer.write_short(self.x);
        let ghost mut written = spec_i16_to_be(self.x);
        let _ = writer.write_short(self.y);
        proof {
            lemma_write_twice(
                old(writer).buffer(),
                old(writer).position() as int,
                written,
                spec_i16_to_be(self.y),
            );
            written = written + spec_i16_to_be(self.y);
        }
        let _ = writer.write_short(self.z);
        proof {
            lemma_write_twice(
                old(writer).buffer(),
                old(writer).position() as int,
                written,
                spec_i16_to_be(self.z),
            );
            written = written + spec_i16_to_be(self.z);
        }
        let _ = writer.write_byte(self.mode);
        proof {
            lemma_write_twice(
                old(writer).buffer(),
                old(writer).position() as int,
                written,
                seq![self.mode],
            );
            written = written + seq![self.mode];
        }
        let _ = writer.write_byte(self.block_type);
        proof {
            lemma_write_twice(
                old(writer).buffer(),
                old(writer).position() as int,
                written,
                seq![self.block_type],
            );
            written = written + seq![self.block_type];
        }
        Ok(())
    }
}

/// The bytes written for a `SetBlockPacket` hold its fields, and no other
/// `SetBlockPacket` is read from them.
pub proof fn lemma_set_block_round_trip(packet: SetBlockPacket, decoded: SetBlockPacket)
    ensures
        packet.spec_payload().len() == 8,
        packet.spec_matches(packet.spec_payload()),
        decoded.spec_matches(packet.spec_payload()) ==> decoded == packet,
{
    lemma_i16_be_round_trip(packet.x);
    lemma_i16_be_round_trip(packet.y);
    lemma_i16_be_round_trip(packet.z);
}

/// The fields read from 8 bytes are written as those bytes.
pub proof fn lemma_set_block_bytes_round_trip(packet: SetBlockPacket, bytes: Seq<u8>)
    requires
        bytes.len() == 8,
        packet.spec_matches(bytes),
    ensures
        packet.spec_payload() == bytes,
{
    lemma_i16_be_bytes_round_trip(bytes[0], bytes[1]);
    lemma_i16_be_bytes_round_trip(bytes[2], bytes[3]);
    lemma_i16_be_bytes_round_trip(bytes[4], bytes[5]);
    assert(packet.spec_payload() =~= bytes);
}

/// Sent often, also while standing still, with the player's position and
/// orientation. The identifier is always `-1`: the player itself.
#[derive(Debug, Clone, Copy, PartialEq, Eq, Structural)]
pub struct PositionPacket {
    pub player_id: SByte,
    pub x: FShort,
    pub y: FShort,
    pub z: FShort,
    pub yaw: Byte,
    pub pitch: Byte,
}

impl PositionPacket {
    /// Whether the fields are the ones that the 9 bytes `bytes` hold.
    pub open spec fn spec_matches(&self, bytes: Seq<u8>) -> bool {
        &&& self.player_id == spec_i8_from_byte(bytes[0])
        &&& self.x.0 == spec_i16_from_be(bytes[1], bytes[2])
        &&& self.y.0 == spec_i16_from_be(bytes[3], bytes[4])
        &&& self.z.0 == spec_i16_from_be(bytes[5], bytes[6])
        &&& self.yaw == bytes[7]
        &&& self.pitch == bytes[8]
    }

    /// Reads the packet's 9 bytes. A short read is a malformed packet.
    pub fn deserialise(reader: &mut PacketReader) -> (packet: Result<
        PositionPacket,
        PacketError,
    >)
        ensures
            final(reader).remaining() == spec_rest(old(reader).remaining(), 9),
            match packet {
                Ok(p) => old(reader).remaining().len() >= 9 && p.spec_matches(
                    old(reader).remaining().take(9),
                ),
                Err(e) => old(reader).remaining().len() < 9 && e
                    == PacketError::MalformedPacket,
            },
    {
        let ghost bytes = old(reader).remaining();
        let player_id = match reader.read_sbyte() {
            Ok(player_id) => player_id,
            Err(e) => {
                return Err(e);
            },
        };
        assert(reader.remaining() =~= bytes.skip(1));
        let x = match reader.read_fshort() {
            Ok(x) => x,
            Err(e) => {
                return Err(e);
            },
        };
        assert(reader.remaining() =~= bytes.skip(3));
        let y = match reader.read_fshort() {
            Ok(y) => y,
            Err(e) => {
                return Err(e);
            },
        };
        assert(reader.remaining() =~= bytes.skip(5));
        let z = match reader.read_fshort() {
            Ok(z) => z,
            Err(e) => {
                return Err(e);
            },
        };
        assert(reader.remaining() =~= bytes.skip(7));
        let yaw = match reader.read_byte() {
            Ok(yaw) => yaw,
            Err(e) => {
                return Err(e);
            },
        };
        assert(reader.remaining() =~= bytes.skip(8));
        let pitch = match reader.read_byte() {
            Ok(pitch) => pitch,
            Err(e) => {
                return Err(e);
            },
        };
        assert(reader.remaining() =~= bytes.skip(9));
        Ok(PositionPacket { player_id, x, y, z, yaw, pitch })
    }

    /// The packet's fields as they stand on the wire, after the opcode.
    pub open spec fn spec_payload(&self) -> Seq<u8> {
        seq![spec_i8_to_byte(self.player_id)] + spec_i16_to_be(self.x.0)
            + spec_i16_to_be(self.y.0) + spec_i16_to_be(self.z.0) + seq![self.yaw]
            + seq![self.pitch]
    }
}

impl PositionPacket {
    /// Writes the packet's fields, in order and without padding.
    pub fn serialise(&self, writer: &mut PacketWriter) -> (done: Result<(), PacketError>)
        requires
            old(writer).wf(),
        ensures
            final(writer).wf(),
            done is Ok,
            final(writer).buffer() == spec_write_at(
                old(writer).buffer(),
                old(writer).position() as int,
                self.spec_payload(),
            ),
            final(writer).position() == old(writer).position() + self.spec_payload().len(),
    {
        let _ = writer.write_sbyte(self.player_id);
        let ghost mut written = seq![spec_i8_to_byte(self.player_id)];
        let _ = writer.write_fshort(&self.x);
        proof {
            lemma_write_twice(
                old(writer).buffer(),
                old(writer).position() as int,
                written,
                spec_i16_to_be(self.x.0),
            );
            written = written + spec_i16_to_be(self.x.0);
        }
        let _ = writer.write_fshort(&self.y);
        proof {
            lemma_write_twice(
                old(writer).buffer(),
                old(writer).position() as int,
                written,
                spec_i16_to_be(self.y.0),
            );
            written = written + spec_i16_to_be(self.y.0);
        }
        let _ = writer.write_fshort(&self.z);
        proof {
            lemma_write_twice(
                old(writer).buffer(),
                old(writer).position() as int,
                written,
                spec_i16_to_be(self.z.0),
            );
            written = written + spec_i16_to_be(self.z.0);
        }
        let _ = writer.write_byte(self.yaw);
        proof {
            lemma_write_twice(
                old(writer).buffer(),
                old(writer).position() as int,
                written,
                seq![self.yaw],
            );
            written = written + seq![self.yaw];
        }
        let _ = writer.write_byte(self.pitch);
        proof {
            lemma_write_twice(
                old(writer).buffer(),
                old(writer).position() as int,
                written,
                seq![self.pitch],
            );
            written = written + seq![self.pitch];
        }
        Ok(())
    }
}

/// The bytes written for a `PositionPacket` hold its fields, and no other
/// `PositionPacket` is read from them.
pub proof fn lemma_position_round_trip(packet: PositionPacket, decoded: PositionPacket)
    ensures
        packet.spec_payload().len() == 9,
        packet.spec_matches(packet.spec_payload()),
        decoded.spec_matches(packet.spec_payload()) ==> decoded == packet,
{
    lemma_i8_byte_round_trip(packet.player_id, 0);
    lemma_i16_be_round_trip(packet.x.0);
    lemma_i16_be_round_trip(packet.y.0);
    lemma_i16_be_round_trip(packet.z.0);
}

/// The fields read from 9 bytes are written as those bytes.
pub proof fn lemma_position_bytes_round_trip(packet: PositionPacket, bytes: Seq<u8>)
    requires
        bytes.len() == 9,
        packet.spec_matches(bytes),
    ensures
        packet.spec_payload() == bytes,
{
    lemma_i8_byte_round_trip(0, bytes[0]);
    lemma_i16_be_bytes_round_trip(bytes[1], bytes[2]);
    lemma_i16_be_bytes_round_trip(bytes[3], bytes[4]);
    lemma_i16_be_bytes_round_trip(bytes[5], bytes[6]);
    assert(packet.spec_payload() =~= bytes);
}

/// A line of chat from a player. The identifier is always `-1`.
#[derive(Debug, Clone, Copy)]
pub struct MessagePacket {
    pub player_id: SByte,
    pub message: PacketString,
}

impl MessagePacket {
    /// Whether the fields are the ones that the 65 bytes `bytes` hold.
    pub open spec fn spec_matches(&self, bytes: Seq<u8>) -> bool {
        &&& self.player_id == spec_i8_from_byte(bytes[0])
        &&& self.message@ == bytes.subrange(1, 65)
    }

    /// Reads the packet's 65 bytes. A short read is a malformed packet.
    pub fn deserialise(reader: &mut PacketReader) -> (packet: Result<
        MessagePacket,
        PacketError,
    >)
        ensures
            final(reader).remaining() == spec_rest(old(reader).remaining(), 65),
            match packet {
                Ok(p) => old(reader).remaining().len() >= 65 && p.spec_matches(
                    old(reader).remaining().take(65),
                ),
                Err(e) => old(reader).remaining().len() < 65 && e
                    == PacketError::MalformedPacket,
            },
    {
        let ghost bytes = old(reader).remaining();
        let player_id = match reader.read_sbyte() {
            Ok(player_id) => player_id,
            Err(e) => {
                return Err(e);
            },
        };
        assert(reader.remaining() =~= bytes.skip(1));
        let message = match reader.read_packet_string() {
            Ok(message) => message,
            Err(e) => {
                return Err(e);
            },
        };
        assert(reader.remaining() =~= bytes.skip(65));
        assert(message@ =~= bytes.take(65).subrange(1, 65));
        Ok(MessagePacket { player_id, message })
    }

    /// The packet's fields as they stand on the wire, after the opcode.
    pub open spec fn spec_payload(&self) -> Seq<u8> {
        seq![spec_i8_to_byte(self.player_id)] + self.message@
    }
}

impl MessagePacket {
    /// Writes the packet's fields, in order and without padding.
    pub fn serialise(&self, writer: &mut PacketWriter) -> (done: Result<(), PacketError>)
        requires
            old(writer).wf(),
        ensures
            final(writer).wf(),
            done is Ok,
            final(writer).buffer() == spec_write_at(
                old(writer).buffer(),
                old(writer).position() as int,
                self.spec_payload(),
            ),
            final(writer).position() == old(writer).position() + self.spec_payload().len(),
    {
        let _ = writer.write_sbyte(self.player_id);
        let ghost mut written = seq![spec_i8_to_byte(self.player_id)];
        let _ = writer.write_packet_string(&self.message);
        proof {
            lemma_write_twice(
                old(writer).buffer(),
                old(writer).position() as int,
                written,
                self.message@,
            );
            written = written + self.message@;
        }
        Ok(())
    }
}

/// The bytes written for a `MessagePacket` hold its fields, and no other
/// `MessagePacket` is read from them.
pub proof fn lemma_message_round_trip(packet: MessagePacket, decoded: MessagePacket)
    ensures
        packet.spec_payload().len() == 65,
        packet.spec_matches(packet.spec_payload()),
        decoded.spec_matches(packet.spec_payload()) ==> decoded == packet,
{
    lemma_i8_byte_round_trip(packet.player_id, 0);
    let payload = packet.spec_payload();
    assert(payload.subrange(1, 65) =~= packet.message@);
    if decoded.spec_matches(payload) {
        assert(decoded.message.0 =~= packet.message.0);
    }
}

/// The fields read from 65 bytes are written as those bytes.
pub proof fn lemma_message_bytes_round_trip(packet: MessagePacket, bytes: Seq<u8>)
    requires
        bytes.len() == 65,
        packet.spec_matches(bytes),
    ensures
        packet.spec_payload() == bytes,
{
    lemma_i8_byte_round_trip(0, bytes[0]);
    assert(packet.spec_payload() =~= bytes);
}
/// The last byte of an identification from a client that supports
/// protocol extensions.
pub const CPE_MAGIC: u8 = 0x42;

/// The lowest protocol version that clients are expected to speak.
pub const PROTOCOL_VERSION: u8 = 7;

/// A signed coordinate of the wire as an unsigned one of the world: a
/// negative value lands far outside every world.
pub open spec fn spec_coordinate(value: i16) -> u32 {
    if value >= 0 {
        value as u32
    } else {
        (value + 0x1_0000_0000) as u32
    }
}

fn coordinate(value: i16) -> (c: u32)
    ensures
        c == spec_coordinate(value),
{
    if value >= 0 {
        value as u32
    } else {
        (value as i64 + 0x1_0000_0000) as u32
    }
}

impl PlayerIdentPacket {
    /// Whether the client speaks a protocol version older than 7. Such a
    /// client is let in all the same.
    pub fn is_outdated(&self) -> (outdated: bool)
        ensures
            outdated == (self.protocol_version < PROTOCOL_VERSION),
    {
        self.protocol_version < PROTOCOL_VERSION
    }

    /// The join of the session `entity_id` that this packet asks for.
    pub fn event(&self, entity_id: SessionHandle) -> (event: PlayerJoinEvent)
        ensures
            event.entity_id == entity_id,
            event.username@ == utf8_lossy(spec_trim(self.username@)),
            valid_utf8(spec_trim(self.username@)) ==> event.username@ == decode_utf8(
                spec_trim(self.username@),
            ),
            event.cpe == (self.padding == CPE_MAGIC),
    {
        PlayerJoinEvent {
            entity_id,
            username: self.username.to_string(),
            cpe: self.padding == CPE_MAGIC,
        }
    }
}

impl SetBlockPacket {
    /// The block change that this packet asks for. Fails with
    /// `InvalidBlock` exactly when `block_type` names no block.
    pub fn event(&self) -> (event: Result<SetBlockEvent, PacketError>)
        ensures
            match event {
                Ok(event) => {
                    &&& Block::spec_from_u8(self.block_type) == Some(event.block)
                    &&& event.placed == (self.mode == 1)
                    &&& event.pos == Coords {
                        x: spec_coordinate(self.x),
                        y: spec_coordinate(self.y),
                        z: spec_coordinate(self.z),
                    }
                },
                Err(e) => self.block_type >= BLOCK_COUNT && e == PacketError::InvalidBlock,
            },
    {
        match Block::from_u8(self.block_type) {
            Some(block) => Ok(
                SetBlockEvent {
                    block,
                    placed: self.mode == 1,
                    pos: Coords {
                        x: coordinate(self.x),
                        y: coordinate(self.y),
                        z: coordinate(self.z),
                    },
                },
            ),
            None => Err(PacketError::InvalidBlock),
        }
    }
}

impl PositionPacket {
    /// The move of the session `entity_id` that this packet reports. The
    /// packet's own identifier is not looked at.
    pub fn event(&self, entity_id: SessionHandle) -> (event: PlayerMoveEvent)
        ensures
            event == (PlayerMoveEvent {
                entity_id,
                pos: Position { x: self.x, y: self.y, z: self.z },
                rot: Rotation { pitch: self.pitch, yaw: self.yaw },
            }),
    {
        PlayerMoveEvent {
            entity_id,
            pos: Position { x: self.x, y: self.y, z: self.z },
            rot: Rotation { pitch: self.pitch, yaw: self.yaw },
        }
    }
}

impl MessagePacket {
    /// The chat line of the session `entity_id` that this packet carries.
    pub fn event(&self, entity_id: SessionHandle) -> (event: PlayerMessageEvent)
        ensures
            event.entity_id == entity_id,
            event.message@ == utf8_lossy(spec_trim(self.message@)),
            valid_utf8(spec_trim(self.message@)) ==> event.message@ == decode_utf8(
                spec_trim(self.message@),
            ),
    {
        PlayerMessageEvent { entity_id, message: self.message.to_string() }
    }
}

} // verus!
