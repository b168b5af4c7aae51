//! Every packet the server sends, as one type.

use crate::networking::error::PacketError;
use crate::networking::reader::{spec_rest, PacketReader};
use crate::networking::s2c::{
    DespawnPlayerPacket, DisconnectPlayerPacket, LevelDataChunkPacket, LevelFinalisePacket,
    LevelInitPacket, MessagePacket, PingPacket, PlayerOriUpdatePacket, PlayerPosOriUpdatePacket,
    PlayerPosUpdatePacket, PlayerTeleportPacket, ServerIdentPacket, SetBlockPacket,
    SpawnPlayerPacket, UpdateUserTypePacket, lemma_despawn_player_bytes_round_trip,
    lemma_despawn_player_round_trip, lemma_disconnect_player_bytes_round_trip,
    lemma_disconnect_player_round_trip, lemma_level_data_chunk_bytes_round_trip,
    lemma_level_data_chunk_round_trip, lemma_level_finalise_bytes_round_trip,
    lemma_level_finalise_round_trip, lemma_level_init_bytes_round_trip,
    lemma_level_init_round_trip, lemma_message_bytes_round_trip, lemma_message_round_trip,
    lemma_ping_bytes_round_trip, lemma_ping_round_trip, lemma_player_ori_update_bytes_round_trip,
    lemma_player_ori_update_round_trip, lemma_player_pos_ori_update_bytes_round_trip,
    lemma_player_pos_ori_update_round_trip, lemma_player_pos_update_bytes_round_trip,
    lemma_player_pos_update_round_trip, lemma_player_teleport_bytes_round_trip,
    lemma_player_teleport_round_trip, lemma_server_ident_bytes_round_trip,
    lemma_server_ident_round_trip, lemma_set_block_bytes_round_trip, lemma_set_block_round_trip,
    lemma_spawn_player_bytes_round_trip, lemma_spawn_player_round_trip,
    lemma_update_user_type_bytes_round_trip, lemma_update_user_type_round_trip,
};
use crate::networking::writer::{lemma_write_at_end, PacketWriter, S2CPacket};
use vstd::prelude::*;

verus! {

/// Number of bytes that follow the opcode `opcode` in a packet from the
/// server, or `None` where the opcode names no such packet.
pub open spec fn spec_server_packet_size(opcode: u8) -> Option<nat> {
    match opcode {
        0x00 => Some(130nat),
        0x01 => Some(0nat),
        0x02 => Some(0nat),
        0x03 => Some(1027nat),
        0x04 => Some(6nat),
        0x06 => Some(7nat),
        0x07 => Some(73nat),
        0x08 => Some(9nat),
        0x09 => Some(6nat),
        0x0a => Some(4nat),
        0x0b => Some(3nat),
        0x0c => Some(1nat),
        0x0d => Some(65nat),
        0x0e => Some(64nat),
        0x0f => Some(1nat),
        _ => None,
    }
}

/// A packet that the server sends.
#[derive(Debug, Clone, Copy)]
pub enum ServerPacket {
    ServerIdent(ServerIdentPacket),
    Ping(PingPacket),
    LevelInit(LevelInitPacket),
    LevelDataChunk(LevelDataChunkPacket),
    LevelFinalise(LevelFinalisePacket),
    SetBlock(SetBlockPacket),
    SpawnPlayer(SpawnPlayerPacket),
    PlayerTeleport(PlayerTeleportPacket),
    PlayerPosOriUpdate(PlayerPosOriUpdatePacket),
    PlayerPosUpdate(PlayerPosUpdatePacket),
    PlayerOriUpdate(PlayerOriUpdatePacket),
    DespawnPlayer(DespawnPlayerPacket),
    Message(MessagePacket),
    DisconnectPlayer(DisconnectPlayerPacket),
    UpdateUserType(UpdateUserTypePacket),
}

impl ServerPacket {
    /// Whether the fields are the ones that `bytes` hold.
    pub open spec fn spec_matches(&self, bytes: Seq<u8>) -> bool {
        match self {
            ServerPacket::ServerIdent(p) => p.spec_matches(bytes),
            ServerPacket::Ping(p) => p.spec_matches(bytes),
            ServerPacket::LevelInit(p) => p.spec_matches(bytes),
            ServerPacket::LevelDataChunk(p) => p.spec_matches(bytes),
            ServerPacket::LevelFinalise(p) => p.spec_matches(bytes),
            ServerPacket::SetBlock(p) => p.spec_matches(bytes),
            ServerPacket::SpawnPlayer(p) => p.spec_matches(bytes),
            ServerPacket::PlayerTeleport(p) => p.spec_matches(bytes),
            ServerPacket::PlayerPosOriUpdate(p) => p.spec_matches(bytes),
            ServerPacket::PlayerPosUpdate(p) => p.spec_matches(bytes),
            ServerPacket::PlayerOriUpdate(p) => p.spec_matches(bytes),
            ServerPacket::DespawnPlayer(p) => p.spec_matches(bytes),
            ServerPacket::Message(p) => p.spec_matches(bytes),
            ServerPacket::DisconnectPlayer(p) => p.spec_matches(bytes),
            ServerPacket::UpdateUserType(p) => p.spec_matches(bytes),
        }
    }

    /// The packet as it stands on the wire: the opcode, then the fields.
    pub open spec fn spec_encoding(&self) -> Seq<u8> {
        seq![self.spec_id()] + self.spec_payload()
    }

    /// Number of bytes that follow the opcode `opcode`, or `None` where
    /// the opcode names no packet from the server.
    pub fn size(opcode: u8) -> (size: Option<usize>)
        ensures
            match size {
                Some(n) => spec_server_packet_size(opcode) == Some(n as nat),
                None => spec_server_packet_size(opcode) is None,
            },
    {
        match opcode {
            0x00 => Some(130),
            0x01 => Some(0),
            0x02 => Some(0),
            0x03 => Some(1027),
            0x04 => Some(6),
            0x06 => Some(7),
            0x07 => Some(73),
            0x08 => Some(9),
            0x09 => Some(6),
            0x0a => Some(4),
            0x0b => Some(3),
            0x0c => Some(1),
            0x0d => Some(65),
            0x0e => Some(64),
            0x0f => Some(1),
            _ => None,
        }
    }

    /// The packet as it stands on the wire: the opcode, then the fields.
    pub fn encode(&self) -> (bytes: Vec<u8>)
        ensures
            bytes@ == self.spec_encoding(),
            spec_server_packet_size(self.spec_id()) == Some(self.spec_payload().len()),
    {
        let mut writer = PacketWriter::new_empty();
        let _ = writer.write_packet(self);
        proof {
            lemma_write_at_end(Seq::empty(), self.spec_encoding());
            lemma_server_packet_round_trip(*self, *self);
        }
        writer.into_inner()
    }

    /// Reads the packet with opcode `opcode`. An opcode that names no
    /// packet is refused before anything is read; a short read is a
    /// malformed packet.
    #[verifier::rlimit(50)]
    pub fn decode(opcode: u8, reader: &mut PacketReader) -> (packet: Result<
        ServerPacket,
        PacketError,
    >)
        ensures
            match spec_server_packet_size(opcode) {
                None => {
                    &&& packet == Err::<ServerPacket, PacketError>(PacketError::UnknownOpcode)
                    &&& final(reader).remaining() == old(reader).remaining()
                },
                Some(size) => {
                    &&& final(reader).remaining() == spec_rest(old(reader).remaining(), size)
                    &&& match packet {
                        Ok(p) => {
                            &&& old(reader).remaining().len() >= size
                            &&& p.spec_id() == opcode
                            &&& p.spec_matches(old(reader).remaining().take(size as int))
                        },
                        Err(e) => old(reader).remaining().len() < size && e
                            == PacketError::MalformedPacket,
                    }
                },
            },
    {
        match opcode {
            0x00 => match ServerIdentPacket::deserialise(reader) {
                Ok(p) => Ok(ServerPacket::ServerIdent(p)),
                Err(e) => Err(e),
            },
            0x01 => match PingPacket::deserialise(reader) {
                Ok(p) => Ok(ServerPacket::Ping(p)),
                Err(e) => Err(e),
            },
            0x02 => match LevelInitPacket::deserialise(reader) {
                Ok(p) => Ok(ServerPacket::LevelInit(p)),
                Err(e) => Err(e),
            },
            0x03 => match LevelDataChunkPacket::deserialise(reader) {
                Ok(p) => Ok(ServerPacket::LevelDataChunk(p)),
                Err(e) => Err(e),
            },
            0x04 => match LevelFinalisePacket::deserialise(reader) {
                Ok(p) => Ok(ServerPacket::LevelFinalise(p)),
                Err(e) => Err(e),
            },
            0x06 => match SetBlockPacket::deserialise(reader) {
                Ok(p) => Ok(ServerPacket::SetBlock(p)),
                Err(e) => Err(e),
            },
            0x07 => match SpawnPlayerPacket::deserialise(reader) {
                Ok(p) => Ok(ServerPacket::SpawnPlayer(p)),
                Err(e) => Err(e),
            },
            0x08 => match PlayerTeleportPacket::deserialise(reader) {
                Ok(p) => Ok(ServerPacket::PlayerTeleport(p)),
                Err(e) => Err(e),
            },
            0x09 => match PlayerPosOriUpdatePacket::deserialise(reader) {
                Ok(p) => Ok(ServerPacket::PlayerPosOriUpdate(p)),
                Err(e) => Err(e),
            },
            0x0a => match PlayerPosUpdatePacket::deserialise(reader) {
                Ok(p) => Ok(ServerPacket::PlayerPosUpdate(p)),
                Err(e) => Err(e),
            },
            0x0b => match PlayerOriUpdatePacket::deserialise(reader) {
                Ok(p) => Ok(ServerPacket::PlayerOriUpdate(p)),
                Err(e) => Err(e),
            },
            0x0c => match DespawnPlayerPacket::deserialise(reader) {
                Ok(p) => Ok(ServerPacket::DespawnPlayer(p)),
                Err(e) => Err(e),
            },
            0x0d => match MessagePacket::deserialise(reader) {
                Ok(p) => Ok(ServerPacket::Message(p)),
                Err(e) => Err(e),
            },
            0x0e => match DisconnectPlayerPacket::deserialise(reader) {
                Ok(p) => Ok(ServerPacket::DisconnectPlayer(p)),
                Err(e) => Err(e),
            },
            0x0f => match UpdateUserTypePacket::deserialise(reader) {
                Ok(p) => Ok(ServerPacket::UpdateUserType(p)),
                Err(e) => Err(e),
            },
            _ => Err(PacketError::UnknownOpcode),
        }
    }
}

impl S2CPacket for ServerPacket {
    open spec fn spec_id(&self) -> u8 {
        match self {
            ServerPacket::ServerIdent(p) => p.spec_id(),
            ServerPacket::Ping(p) => p.spec_id(),
            ServerPacket::LevelInit(p) => p.spec_id(),
            ServerPacket::LevelDataChunk(p) => p.spec_id(),
            ServerPacket::LevelFinalise(p) => p.spec_id(),
            ServerPacket::SetBlock(p) => p.spec_id(),
            ServerPacket::SpawnPlayer(p) => p.spec_id(),
            ServerPacket::PlayerTeleport(p) => p.spec_id(),
            ServerPacket::PlayerPosOriUpdate(p) => p.spec_id(),
            ServerPacket::PlayerPosUpdate(p) => p.spec_id(),
            ServerPacket::PlayerOriUpdate(p) => p.spec_id(),
            ServerPacket::DespawnPlayer(p) => p.spec_id(),
            ServerPacket::Message(p) => p.spec_id(),
            ServerPacket::DisconnectPlayer(p) => p.spec_id(),
            ServerPacket::UpdateUserType(p) => p.spec_id(),
        }
    }

    open spec fn spec_payload(&self) -> Seq<u8> {
        match self {
            ServerPacket::ServerIdent(p) => p.spec_payload(),
            ServerPacket::Ping(p) => p.spec_payload(),
            ServerPacket::LevelInit(p) => p.spec_payload(),
            ServerPacket::LevelDataChunk(p) => p.spec_payload(),
            ServerPacket::LevelFinalise(p) => p.spec_payload(),
            ServerPacket::SetBlock(p) => p.spec_payload(),
            ServerPacket::SpawnPlayer(p) => p.spec_payload(),
            ServerPacket::PlayerTeleport(p) => p.spec_payload(),
            ServerPacket::PlayerPosOriUpdate(p) => p.spec_payload(),
            ServerPacket::PlayerPosUpdate(p) => p.spec_payload(),
            ServerPacket::PlayerOriUpdate(p) => p.spec_payload(),
            ServerPacket::DespawnPlayer(p) => p.spec_payload(),
            ServerPacket::Message(p) => p.spec_payload(),
            ServerPacket::DisconnectPlayer(p) => p.spec_payload(),
            ServerPacket::UpdateUserType(p) => p.spec_payload(),
        }
    }

    fn serialise(&self, writer: &mut PacketWriter) -> (done: Result<(), PacketError>) {
        match self {
            ServerPacket::ServerIdent(p) => p.serialise(writer),
            ServerPacket::Ping(p) => p.serialise(writer),
            ServerPacket::LevelInit(p) => p.serialise(writer),
            ServerPacket::LevelDataChunk(p) => p.serialise(writer),
            ServerPacket::LevelFinalise(p) => p.serialise(writer),
            ServerPacket::SetBlock(p) => p.serialise(writer),
            ServerPacket::SpawnPlayer(p) => p.serialise(writer),
            ServerPacket::PlayerTeleport(p) => p.serialise(writer),
            ServerPacket::PlayerPosOriUpdate(p) => p.serialise(writer),
            ServerPacket::PlayerPosUpdate(p) => p.serialise(writer),
            ServerPacket::PlayerOriUpdate(p) => p.serialise(writer),
            ServerPacket::DespawnPlayer(p) => p.serialise(writer),
            ServerPacket::Message(p) => p.serialise(writer),
            ServerPacket::DisconnectPlayer(p) => p.serialise(writer),
            ServerPacket::UpdateUserType(p) => p.serialise(writer),
        }
    }

    fn id(&self) -> (id: u8) {
        match self {
            ServerPacket::ServerIdent(p) => p.id(),
            ServerPacket::Ping(p) => p.id(),
            ServerPacket::LevelInit(p) => p.id(),
            ServerPacket::LevelDataChunk(p) => p.id(),
            ServerPacket::LevelFinalise(p) => p.id(),
            ServerPacket::SetBlock(p) => p.id(),
            ServerPacket::SpawnPlayer(p) => p.id(),
            ServerPacket::PlayerTeleport(p) => p.id(),
            ServerPacket::PlayerPosOriUpdate(p) => p.id(),
            ServerPacket::PlayerPosUpdate(p) => p.id(),
            ServerPacket::PlayerOriUpdate(p) => p.id(),
            ServerPacket::DespawnPlayer(p) => p.id(),
            ServerPacket::Message(p) => p.id(),
            ServerPacket::DisconnectPlayer(p) => p.id(),
            ServerPacket::UpdateUserType(p) => p.id(),
        }
    }
}

/// Decoding inverts encoding: the bytes written for a packet are as many
/// as its opcode announces, they hold the packet's fields, and no other
/// packet with that opcode is read from them.
pub proof fn lemma_server_packet_round_trip(packet: ServerPacket, decoded: ServerPacket)
    ensures
        spec_server_packet_size(packet.spec_id()) == Some(packet.spec_payload().len()),
        packet.spec_matches(packet.spec_payload()),
        decoded.spec_id() == packet.spec_id() && decoded.spec_matches(packet.spec_payload())
            ==> decoded == packet,
{
    match packet {
        ServerPacket::ServerIdent(p) => {
            match decoded {
                ServerPacket::ServerIdent(q) => lemma_server_ident_round_trip(p, q),
                _ => lemma_server_ident_round_trip(p, p),
            }
        },
        ServerPacket::Ping(p) => {
            match decoded {
                ServerPacket::Ping(q) => lemma_ping_round_trip(p, q),
                _ => lemma_ping_round_trip(p, p),
            }
        },
        ServerPacket::LevelInit(p) => {
            match decoded {
                ServerPacket::LevelInit(q) => lemma_level_init_round_trip(p, q),
                _ => lemma_level_init_round_trip(p, p),
            }
        },
        ServerPacket::LevelDataChunk(p) => {
            match decoded {
                ServerPacket::LevelDataChunk(q) => lemma_level_data_chunk_round_trip(p, q),
                _ => lemma_level_data_chunk_round_trip(p, p),
            }
        },
        ServerPacket::LevelFinalise(p) => {
            match decoded {
                ServerPacket::LevelFinalise(q) => lemma_level_finalise_round_trip(p, q),
                _ => lemma_level_finalise_round_trip(p, p),
            }
        },
        ServerPacket::SetBlock(p) => {
            match decoded {
                ServerPacket::SetBlock(q) => lemma_set_block_round_trip(p, q),
                _ => lemma_set_block_round_trip(p, p),
            }
        },
        ServerPacket::SpawnPlayer(p) => {
            match decoded {
                ServerPacket::SpawnPlayer(q) => lemma_spawn_player_round_trip(p, q),
                _ => lemma_spawn_player_round_trip(p, p),
            }
        },
        ServerPacket::PlayerTeleport(p) => {
            match decoded {
                ServerPacket::PlayerTeleport(q) => lemma_player_teleport_round_trip(p, q),
                _ => lemma_player_teleport_round_trip(p, p),
            }
        },
        ServerPacket::PlayerPosOriUpdate(p) => {
            match decoded {
                ServerPacket::PlayerPosOriUpdate(q) => lemma_player_pos_ori_update_round_trip(p, q),
                _ => lemma_player_pos_ori_update_round_trip(p, p),
            }
        },
        ServerPacket::PlayerPosUpdate(p) => {
            match decoded {
                ServerPacket::PlayerPosUpdate(q) => lemma_player_pos_update_round_trip(p, q),
                _ => lemma_player_pos_update_round_trip(p, p),
            }
        },
        ServerPacket::PlayerOriUpdate(p) => {
            match decoded {
                ServerPacket::PlayerOriUpdate(q) => lemma_player_ori_update_round_trip(p, q),
                _ => lemma_player_ori_update_round_trip(p, p),
            }
        },
        ServerPacket::DespawnPlayer(p) => {
            match decoded {
                ServerPacket::DespawnPlayer(q) => lemma_despawn_player_round_trip(p, q),
                _ => lemma_despawn_player_round_trip(p, p),
            }
        },
        ServerPacket::Message(p) => {
            match decoded {
                ServerPacket::Message(q) => lemma_message_round_trip(p, q),
                _ => lemma_message_round_trip(p, p),
            }
        },
        ServerPacket::DisconnectPlayer(p) => {
            match decoded {
                ServerPacket::DisconnectPlayer(q) => lemma_disconnect_player_round_trip(p, q),
                _ => lemma_disconnect_player_round_trip(p, p),
            }
        },
        ServerPacket::UpdateUserType(p) => {
            match decoded {
                ServerPacket::UpdateUserType(q) => lemma_update_user_type_round_trip(p, q),
                _ => lemma_update_user_type_round_trip(p, p),
            }
        },
    }
}

/// Encoding inverts decoding: a packet read from bytes is written as
/// those bytes.
pub proof fn lemma_server_packet_bytes_round_trip(packet: ServerPacket, bytes: Seq<u8>)
    requires
        spec_server_packet_size(packet.spec_id()) == Some(bytes.len()),
        packet.spec_matches(bytes),
    ensures
        packet.spec_payload() == bytes,
{
    match packet {
        ServerPacket::ServerIdent(p) => lemma_server_ident_bytes_round_trip(p, bytes),
        ServerPacket::Ping(p) => lemma_ping_bytes_round_trip(p, bytes),
        ServerPacket::LevelInit(p) => lemma_level_init_bytes_round_trip(p, bytes),
        ServerPacket::LevelDataChunk(p) => lemma_level_data_chunk_bytes_round_trip(p, bytes),
        ServerPacket::LevelFinalise(p) => lemma_level_finalise_bytes_round_trip(p, bytes),
        ServerPacket::SetBlock(p) => lemma_set_block_bytes_round_trip(p, bytes),
        ServerPacket::SpawnPlayer(p) => lemma_spawn_player_bytes_round_trip(p, bytes),
        ServerPacket::PlayerTeleport(p) => lemma_player_teleport_bytes_round_trip(p, bytes),
        ServerPacket::PlayerPosOriUpdate(p) => lemma_player_pos_ori_update_bytes_round_trip(
            p,
            bytes,
        ),
        ServerPacket::PlayerPosUpdate(p) => lemma_player_pos_update_bytes_round_trip(p, bytes),
        ServerPacket::PlayerOriUpdate(p) => lemma_player_ori_update_bytes_round_trip(p, bytes),
        ServerPacket::DespawnPlayer(p) => lemma_despawn_player_bytes_round_trip(p, bytes),
        ServerPacket::Message(p) => lemma_message_bytes_round_trip(p, bytes),
        ServerPacket::DisconnectPlayer(p) => lemma_disconnect_player_bytes_round_trip(p, bytes),
        ServerPacket::UpdateUserType(p) => lemma_update_user_type_bytes_round_trip(p, bytes),
    }
}

} // verus!
