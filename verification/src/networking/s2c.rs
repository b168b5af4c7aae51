//! The packets that the server sends.

use crate::networking::endian::{
    lemma_i16_be_bytes_round_trip, lemma_i16_be_round_trip, spec_i16_from_be, spec_i16_to_be,
};
use crate::networking::error::PacketError;
use crate::networking::fixed::{
    lemma_i8_byte_round_trip, spec_i8_from_byte, spec_i8_to_byte, Byte, ByteArray, FByte, FShort,
    SByte, Short,
};
use crate::networking::reader::{spec_rest, PacketReader};
use crate::networking::string::PacketString;
use crate::networking::writer::{lemma_write_nothing, lemma_write_twice, PacketWriter, S2CPacket};
use vstd::prelude::*;

verus! {

/// Answers a client's identification: the server's protocol version, its
/// name, its message of the day, and whether the player is an operator.
#[derive(Debug, Clone, Copy)]
pub struct ServerIdentPacket {
    pub protocol_version: Byte,
    pub server_name: PacketString,
    pub server_motd: PacketString,
    pub user_type: Byte,
}

impl ServerIdentPacket {
    /// Whether the fields are the ones that the 130 bytes `bytes` hold.
    pub open spec fn spec_matches(&self, bytes: Seq<u8>) -> bool {
        &&& self.protocol_version == bytes[0]
        &&& self.server_name@ == bytes.subrange(1, 65)
        &&& self.server_motd@ == bytes.subrange(65, 129)
        &&& self.user_type == bytes[129]
    }

    /// Reads the packet's 130 bytes. A short read is a malformed packet.
    pub fn deserialise(reader: &mut PacketReader) -> (packet: Result<
        ServerIdentPacket,
        PacketError,
    >)
        ensures
            final(reader).remaining() == spec_rest(old(reader).remaining(), 130),
            match packet {
                Ok(p) => old(reader).remaining().len() >= 130 && p.spec_matches(
                    old(reader).remaining().take(130),
                ),
                Err(e) => old(reader).remaining().len() < 130 && e
                    == PacketError::MalformedPacket,
            },
    {
        let ghost bytes = old(reader).remaining();
        let protocol_version = match reader.read_byte() {
            Ok(protocol_version) => protocol_version,
            Err(e) => {
                return Err(e);
            },
        };
        assert(reader.remaining() =~= bytes.skip(1));
        let server_name = match reader.read_packet_string() {
            Ok(server_name) => server_name,
            Err(e) => {
                return Err(e);
            },
        };
        assert(reader.remaining() =~= bytes.skip(65));
        let server_motd = match reader.read_packet_string() {
            Ok(server_motd) => server_motd,
            Err(e) => {
                return Err(e);
            },
        };
        assert(reader.remaining() =~= bytes.skip(129));
        let user_type = match reader.read_byte() {
            Ok(user_type) => user_type,
            Err(e) => {
                return Err(e);
            },
        };
        assert(reader.remaining() =~= bytes.skip(130));
        assert(server_name@ =~= bytes.take(130).subrange(1, 65));
        assert(server_motd@ =~= bytes.take(130).subrange(65, 129));
        Ok(ServerIdentPacket { protocol_version, server_name, server_motd, user_type })
    }
}

impl S2CPacket for ServerIdentPacket {
    open spec fn spec_id(&self) -> u8 {
        0x00
    }

    open spec fn spec_payload(&self) -> Seq<u8> {
        seq![self.protocol_version] + self.server_name@ + self.server_motd@
            + seq![self.user_type]
    }

    fn serialise(&self, writer: &mut PacketWriter) -> (done: Result<(), PacketError>) {
        let _ = writer.write_byte(self.protocol_version);
        let ghost mut written = seq![self.protocol_version];
        let _ = writer.write_packet_string(&self.server_name);
        proof {
            lemma_write_twice(
                old(writer).buffer(),
                old(writer).position() as int,
                written,
                self.server_name@,
            );
            written = written + self.server_name@;
        }
        let _ = writer.write_packet_string(&self.server_motd);
        proof {
            lemma_write_twice(
                old(writer).buffer(),
                old(writer).position() as int,
                written,
                self.server_motd@,
            );
            written = written + self.server_motd@;
        }
        let _ = writer.write_byte(self.user_type);
        proof {
            lemma_write_twice(
                old(writer).buffer(),
                old(writer).position() as int,
                written,
                seq![self.user_type],
            );
            written = written + seq![self.user_type];
        }
        Ok(())
    }

    fn id(&self) -> (id: u8) {
        0x00
    }
}

/// The bytes written for a `ServerIdentPacket` hold its fields, and no other
/// `ServerIdentPacket` is read from them.
pub proof fn lemma_server_ident_round_trip(packet: ServerIdentPacket, decoded: ServerIdentPacket)
    ensures
        packet.spec_payload().len() == 130,
        packet.spec_matches(packet.spec_payload()),
        decoded.spec_matches(packet.spec_payload()) ==> decoded == packet,
{
    let payload = packet.spec_payload();
    assert(payload.subrange(1, 65) =~= packet.server_name@);
    assert(payload.subrange(65, 129) =~= packet.server_motd@);
    if decoded.spec_matches(payload) {
        assert(decoded.server_name.0 =~= packet.server_name.0);
        assert(decoded.server_motd.0 =~= packet.server_motd.0);
    }
}

/// The fields read from 130 bytes are written as those bytes.
pub proof fn lemma_server_ident_bytes_round_trip(packet: ServerIdentPacket, bytes: Seq<u8>)
    requires
        bytes.len() == 130,
        packet.spec_matches(bytes),
    ensures
        packet.spec_payload() == bytes,
{
    assert(packet.spec_payload() =~= bytes);
}

/// Sent now and then to test the connection.
#[derive(Debug, Clone, Copy, PartialEq, Eq, Structural)]
pub struct PingPacket;

impl PingPacket {
    /// Whether the fields are the ones that the 0 bytes `bytes` hold.
    pub open spec fn spec_matches(&self, bytes: Seq<u8>) -> bool {
        true
    }

    /// Reads the packet's 0 bytes. A short read is a malformed packet.
    pub fn deserialise(reader: &mut PacketReader) -> (packet: Result<
        PingPacket,
        PacketError,
    >)
        ensures
            final(reader).remaining() == spec_rest(old(reader).remaining(), 0),
            match packet {
                Ok(p) => old(reader).remaining().len() >= 0 && p.spec_matches(
                    old(reader).remaining().take(0),
                ),
                Err(e) => old(reader).remaining().len() < 0 && e
                    == PacketError::MalformedPacket,
            },
    {
        assert(reader.remaining() =~= spec_rest(old(reader).remaining(), 0));
        Ok(PingPacket)
    }
}

impl S2CPacket for PingPacket {
    open spec fn spec_id(&self) -> u8 {
        0x01
    }

    open spec fn spec_payload(&self) -> Seq<u8> {
        Seq::empty()
    }

    fn serialise(&self, writer: &mut PacketWriter) -> (done: Result<(), PacketError>) {
        proof {
            lemma_write_nothing(writer.buffer(), writer.position() as int);
        }
        Ok(())
    }

    fn id(&self) -> (id: u8) {
        0x01
    }
}

/// The bytes written for a `PingPacket` hold its fields, and no other
/// `PingPacket` is read from them.
pub proof fn lemma_ping_round_trip(packet: PingPacket, decoded: PingPacket)
    ensures
        packet.spec_payload().len() == 0,
        packet.spec_matches(packet.spec_payload()),
        decoded.spec_matches(packet.spec_payload()) ==> decoded == packet,
{
}

/// The fields read from 0 bytes are written as those bytes.
pub proof fn lemma_ping_bytes_round_trip(packet: PingPacket, bytes: Seq<u8>)
    requires
        bytes.len() == 0,
        packet.spec_matches(bytes),
    ensures
        packet.spec_payload() == bytes,
{
    assert(packet.spec_payload() =~= bytes);
}

/// Announces that level data follows.
#[derive(Debug, Clone, Copy, PartialEq, Eq, Structural)]
pub struct LevelInitPacket;

impl LevelInitPacket {
    /// Whether the fields are the ones that the 0 bytes `bytes` hold.
    pub open spec fn spec_matches(&self, bytes: Seq<u8>) -> bool {
        true
    }

    /// Reads the packet's 0 bytes. A short read is a malformed packet.
    pub fn deserialise(reader: &mut PacketReader) -> (packet: Result<
        LevelInitPacket,
        PacketError,
    >)
        ensures
            final(reader).remaining() == spec_rest(old(reader).remaining(), 0),
            match packet {
                Ok(p) => old(reader).remaining().len() >= 0 && p.spec_matches(
                    old(reader).remaining().take(0),
                ),
                Err(e) => old(reader).remaining().len() < 0 && e
                    == PacketError::MalformedPacket,
            },
    {
        assert(reader.remaining() =~= spec_rest(old(reader).remaining(), 0));
        Ok(LevelInitPacket)
    }
}

impl S2CPacket for LevelInitPacket {
    open spec fn spec_id(&self) -> u8 {
        0x02
    }

    open spec fn spec_payload(&self) -> Seq<u8> {
        Seq::empty()
    }

    fn serialise(&self, writer: &mut PacketWriter) -> (done: Result<(), PacketError>) {
        proof {
            lemma_write_nothing(writer.buffer(), writer.position() as int);
        }
        Ok(())
    }

    fn id(&self) -> (id: u8) {
        0x02
    }
}

/// The bytes written for a `LevelInitPacket` hold its fields, and no other
/// `LevelInitPacket` is read from them.
pub proof fn lemma_level_init_round_trip(packet: LevelInitPacket, decoded: LevelInitPacket)
    ensures
        packet.spec_payload().len() == 0,
        packet.spec_matches(packet.spec_payload()),
        decoded.spec_matches(packet.spec_payload()) ==> decoded == packet,
{
}

/// The fields read from 0 bytes are written as those bytes.
pub proof fn lemma_level_init_bytes_round_trip(packet: LevelInitPacket, bytes: Seq<u8>)
    requires
        bytes.len() == 0,
        packet.spec_matches(bytes),
    ensures
        packet.spec_payload() == bytes,
{
    assert(packet.spec_payload() =~= bytes);
}

/// One piece of the compressed level.
#[derive(Debug, Clone, Copy)]
pub struct LevelDataChunkPacket {
    /// Number of bytes of `chunk_data` that belong to the level.
    pub chunk_length: Short,
    /// The piece, padded with zeros to 1024 bytes.
    pub chunk_data: ByteArray,
    pub percent_complete: Byte,
}

impl LevelDataChunkPacket {
    /// Whether the fields are the ones that the 1027 bytes `bytes` hold.
    pub open spec fn spec_matches(&self, bytes: Seq<u8>) -> bool {
        &&& self.chunk_length == spec_i16_from_be(bytes[0], bytes[1])
        &&& self.chunk_data@ == bytes.subrange(2, 1026)
        &&& self.percent_complete == bytes[1026]
    }

    /// Reads the packet's 1027 bytes. A short read is a malformed packet.
    pub fn deserialise(reader: &mut PacketReader) -> (packet: Result<
        LevelDataChunkPacket,
        PacketError,
    >)
        ensures
            final(reader).remaining() == spec_rest(old(reader).remaining(), 1027),
            match packet {
                Ok(p) => old(reader).remaining().len() >= 1027 && p.spec_matches(
                    old(reader).remaining().take(1027),
                ),
                Err(e) => old(reader).remaining().len() < 1027 && e
                    == PacketError::MalformedPacket,
            },
    {
        let ghost bytes = old(reader).remaining();
        let chunk_length = match reader.read_short() {
            Ok(chunk_length) => chunk_length,
            Err(e) => {
                return Err(e);
            },
        };
        assert(reader.remaining() =~= bytes.skip(2));
        let chunk_data = match reader.read_byte_array() {
            Ok(chunk_data) => chunk_data,
            Err(e) => {
                return Err(e);
            },
        };
        assert(reader.remaining() =~= bytes.skip(1026));
        let percent_complete = match reader.read_byte() {
            Ok(percent_complete) => percent_complete,
            Err(e) => {
                return Err(e);
            },
        };
        assert(reader.remaining() =~= bytes.skip(1027));
        assert(chunk_data@ =~= bytes.take(1027).subrange(2, 1026));
        Ok(LevelDataChunkPacket { chunk_length, chunk_data, percent_complete })
    }
}

impl S2CPacket for LevelDataChunkPacket {
    open spec fn spec_id(&self) -> u8 {
        0x03
    }

    open spec fn spec_payload(&self) -> Seq<u8> {
        spec_i16_to_be(self.chunk_length) + self.chunk_data@ + seq![self.percent_complete]
    }

    fn serialise(&self, writer: &mut PacketWriter) -> (done: Result<(), PacketError>) {
        let _ = writer.write_short(self.chunk_length);
        let ghost mut written = spec_i16_to_be(self.chunk_length);
        let _ = writer.write_byte_array(&self.chunk_data);
        proof {
            lemma_write_twice(
                old(writer).buffer(),
                old(writer).position() as int,
                written,
                self.chunk_data@,
            );
            written = written + self.chunk_data@;
        }
        let _ = writer.write_byte(self.percent_complete);
        proof {
            lemma_write_twice(
                old(writer).buffer(),
                old(writer).position() as int,
                written,
                seq![self.percent_complete],
            );
            written = written + seq![self.percent_complete];
        }
        Ok(())
    }

    fn id(&self) -> (id: u8) {
        0x03
    }
}

/// The bytes written for a `LevelDataChunkPacket` hold its fields, and no other
/// `LevelDataChunkPacket` is read from them.
pub proof fn lemma_level_data_chunk_round_trip(
    packet: LevelDataChunkPacket,
    decoded: LevelDataChunkPacket,
)
    ensures
        packet.spec_payload().len() == 1027,
        packet.spec_matches(packet.spec_payload()),
        decoded.spec_matches(packet.spec_payload()) ==> decoded == packet,
{
    lemma_i16_be_round_trip(packet.chunk_length);
    let payload = packet.spec_payload();
    assert(payload.subrange(2, 1026) =~= packet.chunk_data@);
    if decoded.spec_matches(payload) {
        assert(decoded.chunk_data =~= packet.chunk_data);
    }
}

/// The fields read from 1027 bytes are written as those bytes.
pub proof fn lemma_level_data_chunk_bytes_round_trip(packet: LevelDataChunkPacket, bytes: Seq<u8>)
    requires
        bytes.len() == 1027,
        packet.spec_matches(bytes),
    ensures
        packet.spec_payload() == bytes,
{
    lemma_i16_be_bytes_round_trip(bytes[0], bytes[1]);
    assert(packet.spec_payload() =~= bytes);
}

/// Ends the level data and gives the world's dimensions.
#[derive(Debug, Clone, Copy, PartialEq, Eq, Structural)]
pub struct LevelFinalisePacket {
    pub x_size: Short,
    pub y_size: Short,
    pub z_size: Short,
}

impl LevelFinalisePacket {
    /// Whether the fields are the ones that the 6 bytes `bytes` hold.
    pub open spec fn spec_matches(&self, bytes: Seq<u8>) -> bool {
        &&& self.x_size == spec_i16_from_be(bytes[0], bytes[1])
        &&& self.y_size == spec_i16_from_be(bytes[2], bytes[3])
        &&& self.z_size == spec_i16_from_be(bytes[4], bytes[5])
    }

    /// Reads the packet's 6 bytes. A short read is a malformed packet.
    pub fn deserialise(reader: &mut PacketReader) -> (packet: Result<
        LevelFinalisePacket,
        PacketError,
    >)
        ensures
            final(reader).remaining() == spec_rest(old(reader).remaining(), 6),
            match packet {
                Ok(p) => old(reader).remaining().len() >= 6 && p.spec_matches(
                    old(reader).remaining().take(6),
                ),
                Err(e) => old(reader).remaining().len() < 6 && e
                    == PacketError::MalformedPacket,
            },
    {
        let ghost bytes = old(reader).remaining();
        let x_size = match reader.read_short() {
            Ok(x_size) => x_size,
            Err(e) => {
                return Err(e);
            },
        };
        assert(reader.remaining() =~= bytes.skip(2));
        let y_size = match reader.read_short() {
            Ok(y_size) => y_size,
            Err(e) => {
                return Err(e);
            },
        };
        assert(reader.remaining() =~= bytes.skip(4));
        let z_size = match reader.read_short() {
            Ok(z_size) => z_size,
            Err(e) => {
                return Err(e);
            },
        };
        assert(reader.remaining() =~= bytes.skip(6));
        Ok(LevelFinalisePacket { x_size, y_size, z_size })
    }
}

impl S2CPacket for LevelFinalisePacket {
    open spec fn spec_id(&self) -> u8 {
        0x04
    }

    open spec fn spec_payload(&self) -> Seq<u8> {
        spec_i16_to_be(self.x_size) + spec_i16_to_be(self.y_size) + spec_i16_to_be(self.z_size)
    }

    fn serialise(&self, writer: &mut PacketWriter) -> (done: Result<(), PacketError>) {
        let _ = writer.write_short(self.x_size);
        let ghost mut written = spec_i16_to_be(self.x_size);
        let _ = writer.write_short(self.y_size);
        proof {
            lemma_write_twice(
                old(writer).buffer(),
                old(writer).position() as int,
                written,
                spec_i16_to_be(self.y_size),
            );
            written = written + spec_i16_to_be(self.y_size);
        }
        let _ = writer.write_short(self.z_size);
        proof {
            lemma_write_twice(
                old(writer).buffer(),
                old(writer).position() as int,
                written,
                spec_i16_to_be(self.z_size),
            );
            written = written + spec_i16_to_be(self.z_size);
        }
        Ok(())
    }

    fn id(&self) -> (id: u8) {
        0x04
    }
}

/// The bytes written for a `LevelFinalisePacket` hold its fields, and no other
/// `LevelFinalisePacket` is read from them.
pub proof fn lemma_level_finalise_round_trip(
    packet: LevelFinalisePacket,
    decoded: LevelFinalisePacket,
)
    ensures
        packet.spec_payload().len() == 6,
        packet.spec_matches(packet.spec_payload()),
        decoded.spec_matches(packet.spec_payload()) ==> decoded == packet,
{
    lemma_i16_be_round_trip(packet.x_size);
    lemma_i16_be_round_trip(packet.y_size);
    lemma_i16_be_round_trip(packet.z_size);
}

/// The fields read from 6 bytes are written as those bytes.
pub proof fn lemma_level_finalise_bytes_round_trip(packet: LevelFinalisePacket, bytes: Seq<u8>)
    requires
        bytes.len() == 6,
        packet.spec_matches(bytes),
    ensures
        packet.spec_payload() == bytes,
{
    lemma_i16_be_bytes_round_trip(bytes[0], bytes[1]);
    lemma_i16_be_bytes_round_trip(bytes[2], bytes[3]);
    lemma_i16_be_bytes_round_trip(bytes[4], bytes[5]);
    assert(packet.spec_payload() =~= bytes);
}

/// Tells a client that a block changed.
#[derive(Debug, Clone, Copy, PartialEq, Eq, Structural)]
pub struct SetBlockPacket {
    pub x: Short,
    pub y: Short,
    pub z: Short,
    pub block_type: Byte,
}

impl SetBlockPacket {
    /// Whether the fields are the ones that the 7 bytes `bytes` hold.
    pub open spec fn spec_matches(&self, bytes: Seq<u8>) -> bool {
        &&& self.x == spec_i16_from_be(bytes[0], bytes[1])
        &&& self.y == spec_i16_from_be(bytes[2], bytes[3])
        &&& self.z == spec_i16_from_be(bytes[4], bytes[5])
        &&& self.block_type == bytes[6]
    }

    /// Reads the packet's 7 bytes. A short read is a malformed packet.
    pub fn deserialise(reader: &mut PacketReader) -> (packet: Result<
        SetBlockPacket,
        PacketError,
    >)
        ensures
            final(reader).remaining() == spec_rest(old(reader).remaining(), 7),
            match packet {
                Ok(p) => old(reader).remaining().len() >= 7 && p.spec_matches(
                    old(reader).remaining().take(7),
                ),
                Err(e) => old(reader).remaining().len() < 7 && e
                    == PacketError::MalformedPacket,
            },
    {
        let ghost bytes = old(reader).remaining();
        let x = match reader.read_short() {
            Ok(x) => x,
            Err(e) => {
                return Err(e);
            },
        };
        assert(reader.remaining() =~= bytes.skip(2));
        let y = match reader.read_short() {
            Ok(y) => y,
            Err(e) => {
                return Err(e);
            },
        };
        assert(reader.remaining() =~= bytes.skip(4));
        let z = match reader.read_short() {
            Ok(z) => z,
            Err(e) => {
                return Err(e);
            },
        };
        assert(reader.remaining() =~= bytes.skip(6));
        let block_type = match reader.read_byte() {
            Ok(block_type) => block_type,
            Err(e) => {
                return Err(e);
            },
        };
        assert(reader.remaining() =~= bytes.skip(7));
        Ok(SetBlockPacket { x, y, z, block_type })
    }
}

impl S2CPacket for SetBlockPacket {
    open spec fn spec_id(&self) -> u8 {
        0x06
    }

    open spec fn spec_payload(&self) -> Seq<u8> {
        spec_i16_to_be(self.x) + spec_i16_to_be(self.y) + spec_i16_to_be(self.z)
            + seq![self.block_type]
    }

    fn serialise(&self, writer: &mut PacketWriter) -> (done: Result<(), PacketError>) {
        let _ = writer.write_short(self.x);
        let ghost mut written = spec_i16_to_be(self.x);
        let _ = writer.write_short(self.y);
        proof {
            lemma_write_twice(
                old(writer).buffer(),
                old(writer).position() as int,
                written,
                spec_i16_to_be(self.y),
            );
            written = written + spec_i16_to_be(self.y);
        }
        let _ = writer.write_short(self.z);
        proof {
            lemma_write_twice(
                old(writer).buffer(),
                old(writer).position() as int,
                written,
                spec_i16_to_be(self.z),
            );
            written = written + spec_i16_to_be(self.z);
        }
        let _ = writer.write_byte(self.block_type);
        proof {
            lemma_write_twice(
                old(writer).buffer(),
                old(writer).position() as int,
                written,
                seq![self.block_type],
            );
            written = written + seq![self.block_type];
        }
        Ok(())
    }

    fn id(&self) -> (id: u8) {
        0x06
    }
}

/// The bytes written for a `SetBlockPacket` hold its fields, and no other
/// `SetBlockPacket` is read from them.
pub proof fn lemma_set_block_round_trip(packet: SetBlockPacket, decoded: SetBlockPacket)
    ensures
        packet.spec_payload().len() == 7,
        packet.spec_matches(packet.spec_payload()),
        decoded.spec_matches(packet.spec_payload()) ==> decoded == packet,
{
    lemma_i16_be_round_trip(packet.x);
    lemma_i16_be_round_trip(packet.y);
    lemma_i16_be_round_trip(packet.z);
}

/// The fields read from 7 bytes are written as those bytes.
pub proof fn lemma_set_block_bytes_round_trip(packet: SetBlockPacket, bytes: Seq<u8>)
    requires
        bytes.len() == 7,
        packet.spec_matches(bytes),
    ensures
        packet.spec_payload() == bytes,
{
    lemma_i16_be_bytes_round_trip(bytes[0], bytes[1]);
    lemma_i16_be_bytes_round_trip(bytes[2], bytes[3]);
    lemma_i16_be_bytes_round_trip(bytes[4], bytes[5]);
    assert(packet.spec_payload() =~= bytes);
}

/// Shows a player to a client. Identifier `-1` is the client's own player.
#[derive(Debug, Clone, Copy)]
pub struct SpawnPlayerPacket {
    pub player_id: SByte,
    pub player_name: PacketString,
    pub x: FShort,
    pub y: FShort,
    pub z: FShort,
    pub yaw: Byte,
    pub pitch: Byte,
}

impl SpawnPlayerPacket {
    /// Whether the fields are the ones that the 73 bytes `bytes` hold.
    pub open spec fn spec_matches(&self, bytes: Seq<u8>) -> bool {
        &&& self.player_id == spec_i8_from_byte(bytes[0])
        &&& self.player_name@ == bytes.subrange(1, 65)
        &&& self.x.0 == spec_i16_from_be(bytes[65], bytes[66])
        &&& self.y.0 == spec_i16_from_be(bytes[67], bytes[68])
        &&& self.z.0 == spec_i16_from_be(bytes[69], bytes[70])
        &&& self.yaw == bytes[71]
        &&& self.pitch == bytes[72]
    }

    /// Reads the packet's 73 bytes. A short read is a malformed packet.
    pub fn deserialise(reader: &mut PacketReader) -> (packet: Result<
        SpawnPlayerPacket,
        PacketError,
    >)
        ensures
            final(reader).remaining() == spec_rest(old(reader).remaining(), 73),
            match packet {
                Ok(p) => old(reader).remaining().len() >= 73 && p.spec_matches(
                    old(reader).remaining().take(73),
                ),
                Err(e) => old(reader).remaining().len() < 73 && e
                    == PacketError::MalformedPacket,
            },
    {
        let ghost bytes = old(reader).remaining();
        let player_id = match reader.read_sbyte() {
            Ok(player_id) => player_id,
            Err(e) => {
                return Err(e);
            },
        };
        assert(reader.remaining() =~= bytes.skip(1));
        let player_name = match reader.read_packet_string() {
            Ok(player_name) => player_name,
            Err(e) => {
                return Err(e);
            },
        };
        assert(reader.remaining() =~= bytes.skip(65));
        let x = match reader.read_fshort() {
            Ok(x) => x,
            Err(e) => {
                return Err(e);
            },
        };
        assert(reader.remaining() =~= bytes.skip(67));
        let y = match reader.read_fshort() {
            Ok(y) => y,
            Err(e) => {
                return Err(e);
            },
        };
        assert(reader.remaining() =~= bytes.skip(69));
        let z = match reader.read_fshort() {
            Ok(z) => z,
            Err(e) => {
                return Err(e);
            },
        };
        assert(reader.remaining() =~= bytes.skip(71));
        let yaw = match reader.read_byte() {
            Ok(yaw) => yaw,
            Err(e) => {
                return Err(e);
            },
        };
        assert(reader.remaining() =~= bytes.skip(72));
        let pitch = match reader.read_byte() {
            Ok(pitch) => pitch,
            Err(e) => {
                return Err(e);
            },
        };
        assert(reader.remaining() =~= bytes.skip(73));
        assert(player_name@ =~= bytes.take(73).subrange(1, 65));
        Ok(SpawnPlayerPacket { player_id, player_name, x, y, z, yaw, pitch })
    }
}

impl S2CPacket for SpawnPlayerPacket {
    open spec fn spec_id(&self) -> u8 {
        0x07
    }

    open spec fn spec_payload(&self) -> Seq<u8> {
        seq![spec_i8_to_byte(self.player_id)] + self.player_name@ + spec_i16_to_be(self.x.0)
            + spec_i16_to_be(self.y.0) + spec_i16_to_be(self.z.0) + seq![self.yaw]
            + seq![self.pitch]
    }

    fn serialise(&self, writer: &mut PacketWriter) -> (done: Result<(), PacketError>) {
        let _ = writer.write_sbyte(self.player_id);
        let ghost mut written = seq![spec_i8_to_byte(self.player_id)];
        let _ = writer.write_packet_string(&self.player_name);
        proof {
            lemma_write_twice(
                old(writer).buffer(),
                old(writer).position() as int,
                written,
                self.player_name@,
            );
            written = written + self.player_name@;
        }
        let _ = writer.write_fshort(&self.x);
        proof {
            lemma_write_twice(
                old(writer).buffer(),
                old(writer).position() as int,
                written,
                spec_i16_to_be(self.x.0),
            );
            written = written + spec_i16_to_be(self.x.0);
        }
        let _ = writer.write_fshort(&self.y);
        proof {
            lemma_write_twice(
                old(writer).buffer(),
                old(writer).position() as int,
                written,
                spec_i16_to_be(self.y.0),
            );
            written = written + spec_i16_to_be(self.y.0);
        }
        let _ = writer.write_fshort(&self.z);
        proof {
            lemma_write_twice(
                old(writer).buffer(),
                old(writer).position() as int,
                written,
                spec_i16_to_be(self.z.0),
            );
            written = written + spec_i16_to_be(self.z.0);
        }
        let _ = writer.write_byte(self.yaw);
        proof {
            lemma_write_twice(
                old(writer).buffer(),
                old(writer).position() as int,
                written,
                seq![self.yaw],
            );
            written = written + seq![self.yaw];
        }
        let _ = writer.write_byte(self.pitch);
        proof {
            lemma_write_twice(
                old(writer).buffer(),
                old(writer).position() as int,
                written,
                seq![self.pitch],
            );
            written = written + seq![self.pitch];
        }
        Ok(())
    }

    fn id(&self) -> (id: u8) {
        0x07
    }
}

/// The bytes written for a `SpawnPlayerPacket` hold its fields, and no other
/// `SpawnPlayerPacket` is read from them.
pub proof fn lemma_spawn_player_round_trip(packet: SpawnPlayerPacket, decoded: SpawnPlayerPacket)
    ensures
        packet.spec_payload().len() == 73,
        packet.spec_matches(packet.spec_payload()),
        decoded.spec_matches(packet.spec_payload()) ==> decoded == packet,
{
    lemma_i8_byte_round_trip(packet.player_id, 0);
    lemma_i16_be_round_trip(packet.x.0);
    lemma_i16_be_round_trip(packet.y.0);
    lemma_i16_be_round_trip(packet.z.0);
    let payload = packet.spec_payload();
    assert(payload.subrange(1, 65) =~= packet.player_name@);
    if decoded.spec_matches(payload) {
        assert(decoded.player_name.0 =~= packet.player_name.0);
    }
}

/// The fields read from 73 bytes are written as those bytes.
pub proof fn lemma_spawn_player_bytes_round_trip(packet: SpawnPlayerPacket, bytes: Seq<u8>)
    requires
        bytes.len() == 73,
        packet.spec_matches(bytes),
    ensures
        packet.spec_payload() == bytes,
{
    lemma_i8_byte_round_trip(0, bytes[0]);
    lemma_i16_be_bytes_round_trip(bytes[65], bytes[66]);
    lemma_i16_be_bytes_round_trip(bytes[67], bytes[68]);
    lemma_i16_be_bytes_round_trip(bytes[69], bytes[70]);
    assert(packet.spec_payload() =~= bytes);
}

/// Puts a player at an absolute position and orientation.
#[derive(Debug, Clone, Copy, PartialEq, Eq, Structural)]
pub struct PlayerTeleportPacket {
    pub player_id: SByte,
    pub x: FShort,
    pub y: FShort,
    pub z: FShort,
    pub yaw: Byte,
    pub pitch: Byte,
}

impl PlayerTeleportPacket {
    /// Whether the fields are the ones that the 9 bytes `bytes` hold.
    pub open spec fn spec_matches(&self, bytes: Seq<u8>) -> bool {
        &&& self.player_id == spec_i8_from_byte(bytes[0])
        &&& self.x.0 == spec_i16_from_be(bytes[1], bytes[2])
        &&& self.y.0 == spec_i16_from_be(bytes[3], bytes[4])
        &&& self.z.0 == spec_i16_from_be(bytes[5], bytes[6])
        &&& self.yaw == bytes[7]
        &&& self.pitch == bytes[8]
    }

    /// Reads the packet's 9 bytes. A short read is a malformed packet.
    pub fn deserialise(reader: &mut PacketReader) -> (packet: Result<
        PlayerTeleportPacket,
        PacketError,
    >)
        ensures
            final(reader).remaining() == spec_rest(old(reader).remaining(), 9),
            match packet {
                Ok(p) => old(reader).remaining().len() >= 9 && p.spec_matches(
                    old(reader).remaining().take(9),
                ),
                Err(e) => old(reader).remaining().len() < 9 && e
                    == PacketError::MalformedPacket,
            },
    {
        let ghost bytes = old(reader).remaining();
        let player_id = match reader.read_sbyte() {
            Ok(player_id) => player_id,
            Err(e) => {
                return Err(e);
            },
        };
        assert(reader.remaining() =~= bytes.skip(1));
        let x = match reader.read_fshort() {
            Ok(x) => x,
            Err(e) => {
                return Err(e);
            },
        };
        assert(reader.remaining() =~= bytes.skip(3));
        let y = match reader.read_fshort() {
            Ok(y) => y,
            Err(e) => {
                return Err(e);
            },
        };
        assert(reader.remaining() =~= bytes.skip(5));
        let z = match reader.read_fshort() {
            Ok(z) => z,
            Err(e) => {
                return Err(e);
            },
        };
        assert(reader.remaining() =~= bytes.skip(7));
        let yaw = match reader.read_byte() {
            Ok(yaw) => yaw,
            Err(e) => {
                return Err(e);
            },
        };
        assert(reader.remaining() =~= bytes.skip(8));
        let pitch = match reader.read_byte() {
            Ok(pitch) => pitch,
            Err(e) => {
                return Err(e);
            },
        };
        assert(reader.remaining() =~= bytes.skip(9));
        Ok(PlayerTeleportPacket { player_id, x, y, z, yaw, pitch })
    }
}

impl S2CPacket for PlayerTeleportPacket {
    open spec fn spec_id(&self) -> u8 {
        0x08
    }

    open spec fn spec_payload(&self) -> Seq<u8> {
        seq![spec_i8_to_byte(self.player_id)] + spec_i16_to_be(self.x.0)
            + spec_i16_to_be(self.y.0) + spec_i16_to_be(self.z.0) + seq![self.yaw]
            + seq![self.pitch]
    }

    fn serialise(&self, writer: &mut PacketWriter) -> (done: Result<(), PacketError>) {
        let _ = writer.write_sbyte(self.player_id);
        let ghost mut written = seq![spec_i8_to_byte(self.player_id)];
        let _ = writer.write_fshort(&self.x);
        proof {
            lemma_write_twice(
                old(writer).buffer(),
                old(writer).position() as int,
                written,
                spec_i16_to_be(self.x.0),
            );
            written = written + spec_i16_to_be(self.x.0);
        }
        let _ = writer.write_fshort(&self.y);
        proof {
            lemma_write_twice(
                old(writer).buffer(),
                old(writer).position() as int,
                written,
                spec_i16_to_be(self.y.0),
            );
            written = written + spec_i16_to_be(self.y.0);
        }
        let _ = writer.write_fshort(&self.z);
        proof {
            lemma_write_twice(
                old(writer).buffer(),
                old(writer).position() as int,
                written,
                spec_i16_to_be(self.z.0),
            );
            written = written + spec_i16_to_be(self.z.0);
        }
        let _ = writer.write_byte(self.yaw);
        proof {
            lemma_write_twice(
                old(writer).buffer(),
                old(writer).position() as int,
                written,
                seq![self.yaw],
            );
            written = written + seq![self.yaw];
        }
        let _ = writer.write_byte(self.pitch);
        proof {
            lemma_write_twice(
                old(writer).buffer(),
                old(writer).position() as int,
                written,
                seq![self.pitch],
            );
            written = written + seq![self.pitch];
        }
        Ok(())
    }

    fn id(&self) -> (id: u8) {
        0x08
    }
}

/// The bytes written for a `PlayerTeleportPacket` hold its fields, and no other
/// `PlayerTeleportPacket` is read from them.
pub proof fn lemma_player_teleport_round_trip(
    packet: PlayerTeleportPacket,
    decoded: PlayerTeleportPacket,
)
    ensures
        packet.spec_payload().len() == 9,
        packet.spec_matches(packet.spec_payload()),
        decoded.spec_matches(packet.spec_payload()) ==> decoded == packet,
{
    lemma_i8_byte_round_trip(packet.player_id, 0);
    lemma_i16_be_round_trip(packet.x.0);
    lemma_i16_be_round_trip(packet.y.0);
    lemma_i16_be_round_trip(packet.z.0);
}

/// The fields read from 9 bytes are written as those bytes.
pub proof fn lemma_player_teleport_bytes_round_trip(packet: PlayerTeleportPacket, bytes: Seq<u8>)
    requires
        bytes.len() == 9,
        packet.spec_matches(bytes),
    ensures
        packet.spec_payload() == bytes,
{
    lemma_i8_byte_round_trip(0, bytes[0]);
    lemma_i16_be_bytes_round_trip(bytes[1], bytes[2]);
    lemma_i16_be_bytes_round_trip(bytes[3], bytes[4]);
    lemma_i16_be_bytes_round_trip(bytes[5], bytes[6]);
    assert(packet.spec_payload() =~= bytes);
}

/// Moves a player by a small step and turns it.
#[derive(Debug, Clone, Copy, PartialEq, Eq, Structural)]
pub struct PlayerPosOriUpdatePacket {
    pub player_id: SByte,
    pub delta_x: FByte,
    pub delta_y: FByte,
    pub delta_z: FByte,
    pub yaw: Byte,
    pub pitch: Byte,
}

impl PlayerPosOriUpdatePacket {
    /// Whether the fields are the ones that the 6 bytes `bytes` hold.
    pub open spec fn spec_matches(&self, bytes: Seq<u8>) -> bool {
        &&& self.player_id == spec_i8_from_byte(bytes[0])
        &&& self.delta_x.0 == spec_i8_from_byte(bytes[1])
        &&& self.delta_y.0 == spec_i8_from_byte(bytes[2])
        &&& self.delta_z.0 == spec_i8_from_byte(bytes[3])
        &&& self.yaw == bytes[4]
        &&& self.pitch == bytes[5]
    }

    /// Reads the packet's 6 bytes. A short read is a malformed packet.
    pub fn deserialise(reader: &mut PacketReader) -> (packet: Result<
        PlayerPosOriUpdatePacket,
        PacketError,
    >)
        ensures
            final(reader).remaining() == spec_rest(old(reader).remaining(), 6),
            match packet {
                Ok(p) => old(reader).remaining().len() >= 6 && p.spec_matches(
                    old(reader).remaining().take(6),
                ),
                Err(e) => old(reader).remaining().len() < 6 && e
                    == PacketError::MalformedPacket,
            },
    {
        let ghost bytes = old(reader).remaining();
        let player_id = match reader.read_sbyte() {
            Ok(player_id) => player_id,
            Err(e) => {
                return Err(e);
            },
        };
        assert(reader.remaining() =~= bytes.skip(1));
        let delta_x = match reader.read_fbyte() {
            Ok(delta_x) => delta_x,
            Err(e) => {
                return Err(e);
            },
        };
        assert(reader.remaining() =~= bytes.skip(2));
        let delta_y = match reader.read_fbyte() {
            Ok(delta_y) => delta_y,
            Err(e) => {
                return Err(e);
            },
        };
        assert(reader.remaining() =~= bytes.skip(3));
        let delta_z = match reader.read_fbyte() {
            Ok(delta_z) => delta_z,
            Err(e) => {
                return Err(e);
            },
        };
        assert(reader.remaining() =~= bytes.skip(4));
        let yaw = match reader.read_byte() {
            Ok(yaw) => yaw,
            Err(e) => {
                return Err(e);
            },
        };
        assert(reader.remaining() =~= bytes.skip(5));
        let pitch = match reader.read_byte() {
            Ok(pitch) => pitch,
            Err(e) => {
                return Err(e);
            },
        };
        assert(reader.remaining() =~= bytes.skip(6));
        Ok(PlayerPosOriUpdatePacket { player_id, delta_x, delta_y, delta_z, yaw, pitch })
    }
}

impl S2CPacket for PlayerPosOriUpdatePacket {
    open spec fn spec_id(&self) -> u8 {
        0x09
    }

    open spec fn spec_payload(&self) -> Seq<u8> {
        seq![spec_i8_to_byte(self.player_id)] + seq![spec_i8_to_byte(self.delta_x.0)]
            + seq![spec_i8_to_byte(self.delta_y.0)] + seq![spec_i8_to_byte(self.delta_z.0)]
            + seq![self.yaw] + seq![self.pitch]
    }

    fn serialise(&self, writer: &mut PacketWriter) -> (done: Result<(), PacketError>) {
        let _ = writer.write_sbyte(self.player_id);
        let ghost mut written = seq![spec_i8_to_byte(self.player_id)];
        let _ = writer.write_fbyte(&self.delta_x);
        proof {
            lemma_write_twice(
                old(writer).buffer(),
                old(writer).position() as int,
                written,
                seq![spec_i8_to_byte(self.delta_x.0)],
            );
            written = written + seq![spec_i8_to_byte(self.delta_x.0)];
        }
        let _ = writer.write_fbyte(&self.delta_y);
        proof {
            lemma_write_twice(
                old(writer).buffer(),
                old(writer).position() as int,
                written,
                seq![spec_i8_to_byte(self.delta_y.0)],
            );
            written = written + seq![spec_i8_to_byte(self.delta_y.0)];
        }
        let _ = writer.write_fbyte(&self.delta_z);
        proof {
            lemma_write_twice(
                old(writer).buffer(),
                old(writer).position() as int,
                written,
                seq![spec_i8_to_byte(self.delta_z.0)],
            );
            written = written + seq![spec_i8_to_byte(self.delta_z.0)];
        }
        let _ = writer.write_byte(self.yaw);
        proof {
            lemma_write_twice(
                old(writer).buffer(),
                old(writer).position() as int,
                written,
                seq![self.yaw],
            );
            written = written + seq![self.yaw];
        }
        let _ = writer.write_byte(self.pitch);
        proof {
            lemma_write_twice(
                old(writer).buffer(),
                old(writer).position() as int,
                written,
                seq![self.pitch],
            );
            written = written + seq![self.pitch];
        }
        Ok(())
    }

    fn id(&self) -> (id: u8) {
        0x09
    }
}

/// The bytes written for a `PlayerPosOriUpdatePacket` hold its fields, and no other
/// `PlayerPosOriUpdatePacket` is read from them.
pub proof fn lemma_player_pos_ori_update_round_trip(
    packet: PlayerPosOriUpdatePacket,
    decoded: PlayerPosOriUpdatePacket,
)
    ensures
        packet.spec_payload().len() == 6,
        packet.spec_matches(packet.spec_payload()),
        decoded.spec_matches(packet.spec_payload()) ==> decoded == packet,
{
    lemma_i8_byte_round_trip(packet.player_id, 0);
    lemma_i8_byte_round_trip(packet.delta_x.0, 0);
    lemma_i8_byte_round_trip(packet.delta_y.0, 0);
    lemma_i8_byte_round_trip(packet.delta_z.0, 0);
}

/// The fields read from 6 bytes are written as those bytes.
pub proof fn lemma_player_pos_ori_update_bytes_round_trip(
    packet: PlayerPosOriUpdatePacket,
    bytes: Seq<u8>,
)
    requires
        bytes.len() == 6,
        packet.spec_matches(bytes),
    ensures
        packet.spec_payload() == bytes,
{
    lemma_i8_byte_round_trip(0, bytes[0]);
    lemma_i8_byte_round_trip(0, bytes[1]);
    lemma_i8_byte_round_trip(0, bytes[2]);
    lemma_i8_byte_round_trip(0, bytes[3]);
    assert(packet.spec_payload() =~= bytes);
}

/// Moves a player by a small step.
#[derive(Debug, Clone, Copy, PartialEq, Eq, Structural)]
pub struct PlayerPosUpdatePacket {
    pub player_id: SByte,
    pub delta_x: FByte,
    pub delta_y: FByte,
    pub delta_z: FByte,
}

impl PlayerPosUpdatePacket {
    /// Whether the fields are the ones that the 4 bytes `bytes` hold.
    pub open spec fn spec_matches(&self, bytes: Seq<u8>) -> bool {
        &&& self.player_id == spec_i8_from_byte(bytes[0])
        &&& self.delta_x.0 == spec_i8_from_byte(bytes[1])
        &&& self.delta_y.0 == spec_i8_from_byte(bytes[2])
        &&& self.delta_z.0 == spec_i8_from_byte(bytes[3])
    }

    /// Reads the packet's 4 bytes. A short read is a malformed packet.
    pub fn deserialise(reader: &mut PacketReader) -> (packet: Result<
        PlayerPosUpdatePacket,
        PacketError,
    >)
        ensures
            final(reader).remaining() == spec_rest(old(reader).remaining(), 4),
            match packet {
                Ok(p) => old(reader).remaining().len() >= 4 && p.spec_matches(
                    old(reader).remaining().take(4),
                ),
                Err(e) => old(reader).remaining().len() < 4 && e
                    == PacketError::MalformedPacket,
            },
    {
        let ghost bytes = old(reader).remaining();
        let player_id = match reader.read_sbyte() {
            Ok(player_id) => player_id,
            Err(e) => {
                return Err(e);
            },
        };
        assert(reader.remaining() =~= bytes.skip(1));
        let delta_x = match reader.read_fbyte() {
            Ok(delta_x) => delta_x,
            Err(e) => {
                return Err(e);
            },
        };
        assert(reader.remaining() =~= bytes.skip(2));
        let delta_y = match reader.read_fbyte() {
            Ok(delta_y) => delta_y,
            Err(e) => {
                return Err(e);
            },
        };
        assert(reader.remaining() =~= bytes.skip(3));
        let delta_z = match reader.read_fbyte() {
            Ok(delta_z) => delta_z,
            Err(e) => {
                return Err(e);
            },
        };
        assert(reader.remaining() =~= bytes.skip(4));
        Ok(PlayerPosUpdatePacket { player_id, delta_x, delta_y, delta_z })
    }
}

impl S2CPacket for PlayerPosUpdatePacket {
    open spec fn spec_id(&self) -> u8 {
        0x0a
    }

    open spec fn spec_payload(&self) -> Seq<u8> {
        seq![spec_i8_to_byte(self.player_id)] + seq![spec_i8_to_byte(self.delta_x.0)]
            + seq![spec_i8_to_byte(self.delta_y.0)] + seq![spec_i8_to_byte(self.delta_z.0)]
    }

    fn serialise(&self, writer: &mut PacketWriter) -> (done: Result<(), PacketError>) {
        let _ = writer.write_sbyte(self.player_id);
        let ghost mut written = seq![spec_i8_to_byte(self.player_id)];
        let _ = writer.write_fbyte(&self.delta_x);
        proof {
            lemma_write_twice(
                old(writer).buffer(),
                old(writer).position() as int,
                written,
                seq![spec_i8_to_byte(self.delta_x.0)],
            );
            written = written + seq![spec_i8_to_byte(self.delta_x.0)];
        }
        let _ = writer.write_fbyte(&self.delta_y);
        proof {
            lemma_write_twice(
                old(writer).buffer(),
                old(writer).position() as int,
                written,
                seq![spec_i8_to_byte(self.delta_y.0)],
            );
            written = written + seq![spec_i8_to_byte(self.delta_y.0)];
        }
        let _ = writer.write_fbyte(&self.delta_z);
        proof {
            lemma_write_twice(
                old(writer).buffer(),
                old(writer).position() as int,
                written,
                seq![spec_i8_to_byte(self.delta_z.0)],
            );
            written = written + seq![spec_i8_to_byte(self.delta_z.0)];
        }
        Ok(())
    }

    fn id(&self) -> (id: u8) {
        0x0a
    }
}

/// The bytes written for a `PlayerPosUpdatePacket` hold its fields, and no other
/// `PlayerPosUpdatePacket` is read from them.
pub proof fn lemma_player_pos_update_round_trip(
    packet: PlayerPosUpdatePacket,
    decoded: PlayerPosUpdatePacket,
)
    ensures
        packet.spec_payload().len() == 4,
        packet.spec_matches(packet.spec_payload()),
        decoded.spec_matches(packet.spec_payload()) ==> decoded == packet,
{
    lemma_i8_byte_round_trip(packet.player_id, 0);
    lemma_i8_byte_round_trip(packet.delta_x.0, 0);
    lemma_i8_byte_round_trip(packet.delta_y.0, 0);
    lemma_i8_byte_round_trip(packet.delta_z.0, 0);
}

/// The fields read from 4 bytes are written as those bytes.
pub proof fn lemma_player_pos_update_bytes_round_trip(packet: PlayerPosUpdatePacket, bytes: Seq<u8>)
    requires
        bytes.len() == 4,
        packet.spec_matches(bytes),
    ensures
        packet.spec_payload() == bytes,
{
    lemma_i8_byte_round_trip(0, bytes[0]);
    lemma_i8_byte_round_trip(0, bytes[1]);
    lemma_i8_byte_round_trip(0, bytes[2]);
    lemma_i8_byte_round_trip(0, bytes[3]);
    assert(packet.spec_payload() =~= bytes);
}

/// Turns a player.
#[derive(Debug, Clone, Copy, PartialEq, Eq, Structural)]
pub struct PlayerOriUpdatePacket {
    pub player_id: SByte,
    pub yaw: Byte,
    pub pitch: Byte,
}

impl PlayerOriUpdatePacket {
    /// Whether the fields are the ones that the 3 bytes `bytes` hold.
    pub open spec fn spec_matches(&self, bytes: Seq<u8>) -> bool {
        &&& self.player_id == spec_i8_from_byte(bytes[0])
        &&& self.yaw == bytes[1]
        &&& self.pitch == bytes[2]
    }

    /// Reads the packet's 3 bytes. A short read is a malformed packet.
    pub fn deserialise(reader: &mut PacketReader) -> (packet: Result<
        PlayerOriUpdatePacket,
        PacketError,
    >)
        ensures
            final(reader).remaining() == spec_rest(old(reader).remaining(), 3),
            match packet {
                Ok(p) => old(reader).remaining().len() >= 3 && p.spec_matches(
                    old(reader).remaining().take(3),
                ),
                Err(e) => old(reader).remaining().len() < 3 && e
                    == PacketError::MalformedPacket,
            },
    {
        let ghost bytes = old(reader).remaining();
        let player_id = match reader.read_sbyte() {
            Ok(player_id) => player_id,
            Err(e) => {
                return Err(e);
            },
        };
        assert(reader.remaining() =~= bytes.skip(1));
        let yaw = match reader.read_byte() {
            Ok(yaw) => yaw,
            Err(e) => {
                return Err(e);
            },
        };
        assert(reader.remaining() =~= bytes.skip(2));
        let pitch = match reader.read_byte() {
            Ok(pitch) => pitch,
            Err(e) => {
                return Err(e);
            },
        };
        assert(reader.remaining() =~= bytes.skip(3));
        Ok(PlayerOriUpdatePacket { player_id, yaw, pitch })
    }
}

impl S2CPacket for PlayerOriUpdatePacket {
    open spec fn spec_id(&self) -> u8 {
        0x0b
    }

    open spec fn spec_payload(&self) -> Seq<u8> {
        seq![spec_i8_to_byte(self.player_id)] + seq![self.yaw] + seq![self.pitch]
    }

    fn serialise(&self, writer: &mut PacketWriter) -> (done: Result<(), PacketError>) {
        let _ = writer.write_sbyte(self.player_id);
        let ghost mut written = seq![spec_i8_to_byte(self.player_id)];
        let _ = writer.write_byte(self.yaw);
        proof {
            lemma_write_twice(
                old(writer).buffer(),
                old(writer).position() as int,
                written,
                seq![self.yaw],
            );
            written = written + seq![self.yaw];
        }
        let _ = writer.write_byte(self.pitch);
        proof {
            lemma_write_twice(
                old(writer).buffer(),
                old(writer).position() as int,
                written,
                seq![self.pitch],
            );
            written = written + seq![self.pitch];
        }
        Ok(())
    }

    fn id(&self) -> (id: u8) {
        0x0b
    }
}

/// The bytes written for a `PlayerOriUpdatePacket` hold its fields, and no other
/// `PlayerOriUpdatePacket` is read from them.
pub proof fn lemma_player_ori_update_round_trip(
    packet: PlayerOriUpdatePacket,
    decoded: PlayerOriUpdatePacket,
)
    ensures
        packet.spec_payload().len() == 3,
        packet.spec_matches(packet.spec_payload()),
        decoded.spec_matches(packet.spec_payload()) ==> decoded == packet,
{
    lemma_i8_byte_round_trip(packet.player_id, 0);
}

/// The fields read from 3 bytes are written as those bytes.
pub proof fn lemma_player_ori_update_bytes_round_trip(packet: PlayerOriUpdatePacket, bytes: Seq<u8>)
    requires
        bytes.len() == 3,
        packet.spec_matches(bytes),
    ensures
        packet.spec_payload() == bytes,
{
    lemma_i8_byte_round_trip(0, bytes[0]);
    assert(packet.spec_payload() =~= bytes);
}

/// Removes a player from a client's view.
#[derive(Debug, Clone, Copy, PartialEq, Eq, Structural)]
pub struct DespawnPlayerPacket {
    pub player_id: SByte,
}

impl DespawnPlayerPacket {
    /// Whether the fields are the ones that the 1 bytes `bytes` hold.
    pub open spec fn spec_matches(&self, bytes: Seq<u8>) -> bool {
        &&& self.player_id == spec_i8_from_byte(bytes[0])
    }

    /// Reads the packet's 1 bytes. A short read is a malformed packet.
    pub fn deserialise(reader: &mut PacketReader) -> (packet: Result<
        DespawnPlayerPacket,
        PacketError,
    >)
        ensures
            final(reader).remaining() == spec_rest(old(reader).remaining(), 1),
            match packet {
                Ok(p) => old(reader).remaining().len() >= 1 && p.spec_matches(
                    old(reader).remaining().take(1),
                ),
                Err(e) => old(reader).remaining().len() < 1 && e
                    == PacketError::MalformedPacket,
            },
    {
        let ghost bytes = old(reader).remaining();
        let player_id = match reader.read_sbyte() {
            Ok(player_id) => player_id,
            Err(e) => {
                return Err(e);
            },
        };
        assert(reader.remaining() =~= bytes.skip(1));
        Ok(DespawnPlayerPacket { player_id })
    }
}

impl S2CPacket for DespawnPlayerPacket {
    open spec fn spec_id(&self) -> u8 {
        0x0c
    }

    open spec fn spec_payload(&self) -> Seq<u8> {
        seq![spec_i8_to_byte(self.player_id)]
    }

    fn serialise(&self, writer: &mut PacketWriter) -> (done: Result<(), PacketError>) {
        let _ = writer.write_sbyte(self.player_id);
        Ok(())
    }

    fn id(&self) -> (id: u8) {
        0x0c
    }
}

/// The bytes written for a `DespawnPlayerPacket` hold its fields, and no other
/// `DespawnPlayerPacket` is read from them.
pub proof fn lemma_despawn_player_round_trip(
    packet: DespawnPlayerPacket,
    decoded: DespawnPlayerPacket,
)
    ensures
        packet.spec_payload().len() == 1,
        packet.spec_matches(packet.spec_payload()),
        decoded.spec_matches(packet.spec_payload()) ==> decoded == packet,
{
    lemma_i8_byte_round_trip(packet.player_id, 0);
}

/// The fields read from 1 bytes are written as those bytes.
pub proof fn lemma_despawn_player_bytes_round_trip(packet: DespawnPlayerPacket, bytes: Seq<u8>)
    requires
        bytes.len() == 1,
        packet.spec_matches(bytes),
    ensures
        packet.spec_payload() == bytes,
{
    lemma_i8_byte_round_trip(0, bytes[0]);
    assert(packet.spec_payload() =~= bytes);
}

/// A line of chat.
#[derive(Debug, Clone, Copy)]
pub struct MessagePacket {
    pub player_id: SByte,
    pub message: PacketString,
}

impl MessagePacket {
    /// Whether the fields are the ones that the 65 bytes `bytes` hold.
    pub open spec fn spec_matches(&self, bytes: Seq<u8>) -> bool {
        &&& self.player_id == spec_i8_from_byte(bytes[0])
        &&& self.message@ == bytes.subrange(1, 65)
    }

    /// Reads the packet's 65 bytes. A short read is a malformed packet.
    pub fn deserialise(reader: &mut PacketReader) -> (packet: Result<
        MessagePacket,
        PacketError,
    >)
        ensures
            final(reader).remaining() == spec_rest(old(reader).remaining(), 65),
            match packet {
                Ok(p) => old(reader).remaining().len() >= 65 && p.spec_matches(
                    old(reader).remaining().take(65),
                ),
                Err(e) => old(reader).remaining().len() < 65 && e
                    == PacketError::MalformedPacket,
            },
    {
        let ghost bytes = old(reader).remaining();
        let player_id = match reader.read_sbyte() {
            Ok(player_id) => player_id,
            Err(e) => {
                return Err(e);
            },
        };
        assert(reader.remaining() =~= bytes.skip(1));
        let message = match reader.read_packet_string() {
            Ok(message) => message,
            Err(e) => {
                return Err(e);
            },
        };
        assert(reader.remaining() =~= bytes.skip(65));
        assert(message@ =~= bytes.take(65).subrange(1, 65));
        Ok(MessagePacket { player_id, message })
    }
}

impl S2CPacket for MessagePacket {
    open spec fn spec_id(&self) -> u8 {
        0x0d
    }

    open spec fn spec_payload(&self) -> Seq<u8> {
        seq![spec_i8_to_byte(self.player_id)] + self.message@
    }

    fn serialise(&self, writer: &mut PacketWriter) -> (done: Result<(), PacketError>) {
        let _ = writer.write_sbyte(self.player_id);
        let ghost mut written = seq![spec_i8_to_byte(self.player_id)];
        let _ = writer.write_packet_string(&self.message);
        proof {
            lemma_write_twice(
                old(writer).buffer(),
                old(writer).position() as int,
                written,
                self.message@,
            );
            written = written + self.message@;
        }
        Ok(())
    }

    fn id(&self) -> (id: u8) {
        0x0d
    }
}

/// The bytes written for a `MessagePacket` hold its fields, and no other
/// `MessagePacket` is read from them.
pub proof fn lemma_message_round_trip(packet: MessagePacket, decoded: MessagePacket)
    ensures
        packet.spec_payload().len() == 65,
        packet.spec_matches(packet.spec_payload()),
        decoded.spec_matches(packet.spec_payload()) ==> decoded == packet,
{
    lemma_i8_byte_round_trip(packet.player_id, 0);
    let payload = packet.spec_payload();
    assert(payload.subrange(1, 65) =~= packet.message@);
    if decoded.spec_matches(payload) {
        assert(decoded.message.0 =~= packet.message.0);
    }
}

/// The fields read from 65 bytes are written as those bytes.
pub proof fn lemma_message_bytes_round_trip(packet: MessagePacket, bytes: Seq<u8>)
    requires
        bytes.len() == 65,
        packet.spec_matches(bytes),
    ensures
        packet.spec_payload() == bytes,
{
    lemma_i8_byte_round_trip(0, bytes[0]);
    assert(packet.spec_payload() =~= bytes);
}

/// Tells a client why it is being disconnected.
#[derive(Debug, Clone, Copy)]
pub struct DisconnectPlayerPacket {
    pub disconnect_reason: PacketString,
}

impl DisconnectPlayerPacket {
    /// Whether the fields are the ones that the 64 bytes `bytes` hold.
    pub open spec fn spec_matches(&self, bytes: Seq<u8>) -> bool {
        &&& self.disconnect_reason@ == bytes.subrange(0, 64)
    }

    /// Reads the packet's 64 bytes. A short read is a malformed packet.
    pub fn deserialise(reader: &mut PacketReader) -> (packet: Result<
        DisconnectPlayerPacket,
        PacketError,
    >)
        ensures
            final(reader).remaining() == spec_rest(old(reader).remaining(), 64),
            match packet {
                Ok(p) => old(reader).remaining().len() >= 64 && p.spec_matches(
                    old(reader).remaining().take(64),
                ),
                Err(e) => old(reader).remaining().len() < 64 && e
                    == PacketError::MalformedPacket,
            },
    {
        let ghost bytes = old(reader).remaining();
        let disconnect_reason = match reader.read_packet_string() {
            Ok(disconnect_reason) => disconnect_reason,
            Err(e) => {
                return Err(e);
            },
        };
        assert(reader.remaining() =~= bytes.skip(64));
        assert(disconnect_reason@ =~= bytes.take(64).subrange(0, 64));
        Ok(DisconnectPlayerPacket { disconnect_reason })
    }
}

impl S2CPacket for DisconnectPlayerPacket {
    open spec fn spec_id(&self) -> u8 {
        0x0e
    }

    open spec fn spec_payload(&self) -> Seq<u8> {
        self.disconnect_reason@
    }

    fn serialise(&self, writer: &mut PacketWriter) -> (done: Result<(), PacketError>) {
        let _ = writer.write_packet_string(&self.disconnect_reason);
        Ok(())
    }

    fn id(&self) -> (id: u8) {
        0x0e
    }
}

/// The bytes written for a `DisconnectPlayerPacket` hold its fields, and no other
/// `DisconnectPlayerPacket` is read from them.
pub proof fn lemma_disconnect_player_round_trip(
    packet: DisconnectPlayerPacket,
    decoded: DisconnectPlayerPacket,
)
    ensures
        packet.spec_payload().len() == 64,
        packet.spec_matches(packet.spec_payload()),
        decoded.spec_matches(packet.spec_payload()) ==> decoded == packet,
{
    let payload = packet.spec_payload();
    assert(payload.subrange(0, 64) =~= packet.disconnect_reason@);
    if decoded.spec_matches(payload) {
        assert(decoded.disconnect_reason.0 =~= packet.disconnect_reason.0);
    }
}

/// The fields read from 64 bytes are written as those bytes.
pub proof fn lemma_disconnect_player_bytes_round_trip(
    packet: DisconnectPlayerPacket,
    bytes: Seq<u8>,
)
    requires
        bytes.len() == 64,
        packet.spec_matches(bytes),
    ensures
        packet.spec_payload() == bytes,
{
    assert(packet.spec_payload() =~= bytes);
}

/// Changes whether the player is an operator.
#[derive(Debug, Clone, Copy, PartialEq, Eq, Structural)]
pub struct UpdateUserTypePacket {
    pub user_type: Byte,
}

impl UpdateUserTypePacket {
    /// Whether the fields are the ones that the 1 bytes `bytes` hold.
    pub open spec fn spec_matches(&self, bytes: Seq<u8>) -> bool {
        &&& self.user_type == bytes[0]
    }

    /// Reads the packet's 1 bytes. A short read is a malformed packet.
    pub fn deserialise(reader: &mut PacketReader) -> (packet: Result<
        UpdateUserTypePacket,
        PacketError,
    >)
        ensures
            final(reader).remaining() == spec_rest(old(reader).remaining(), 1),
            match packet {
                Ok(p) => old(reader).remaining().len() >= 1 && p.spec_matches(
                    old(reader).remaining().take(1),
                ),
                Err(e) => old(reader).remaining().len() < 1 && e
                    == PacketError::MalformedPacket,
            },
    {
        let ghost bytes = old(reader).remaining();
        let user_type = match reader.read_byte() {
            Ok(user_type) => user_type,
            Err(e) => {
                return Err(e);
            },
        };
        assert(reader.remaining() =~= bytes.skip(1));
        Ok(UpdateUserTypePacket { user_type })
    }
}

impl S2CPacket for UpdateUserTypePacket {
    open spec fn spec_id(&self) -> u8 {
        0x0f
    }

    open spec fn spec_payload(&self) -> Seq<u8> {
        seq![self.user_type]
    }

    fn serialise(&self, writer: &mut PacketWriter) -> (done: Result<(), PacketError>) {
        let _ = writer.write_byte(self.user_type);
        Ok(())
    }

    fn id(&self) -> (id: u8) {
        0x0f
    }
}

/// The bytes written for a `UpdateUserTypePacket` hold its fields, and no other
/// `UpdateUserTypePacket` is read from them.
pub proof fn lemma_update_user_type_round_trip(
    packet: UpdateUserTypePacket,
    decoded: UpdateUserTypePacket,
)
    ensures
        packet.spec_payload().len() == 1,
        packet.spec_matches(packet.spec_payload()),
        decoded.spec_matches(packet.spec_payload()) ==> decoded == packet,
{
}

/// The fields read from 1 bytes are written as those bytes.
pub proof fn lemma_update_user_type_bytes_round_trip(packet: UpdateUserTypePacket, bytes: Seq<u8>)
    requires
        bytes.len() == 1,
        packet.spec_matches(bytes),
    ensures
        packet.spec_payload() == bytes,
{
    assert(packet.spec_payload() =~= bytes);
}
} // verus!
