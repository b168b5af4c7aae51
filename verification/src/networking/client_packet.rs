//! Every packet a client sends, as one type, and the registry that tells
//! a session how many bytes follow an opcode.

use crate::block::BLOCK_COUNT;
use crate::networking::c2s::{
    lemma_message_bytes_round_trip, lemma_message_round_trip, lemma_player_ident_bytes_round_trip,
    lemma_player_ident_round_trip, lemma_position_bytes_round_trip, lemma_position_round_trip,
    lemma_set_block_bytes_round_trip, lemma_set_block_round_trip, MessagePacket,
    PlayerIdentPacket, PositionPacket, SetBlockPacket,
};
use crate::networking::error::PacketError;
use crate::networking::reader::{spec_rest, PacketReader};
use crate::networking::writer::{lemma_write_at_end, lemma_write_twice, PacketWriter};
use vstd::prelude::*;

verus! {

/// The kinds of packet a client sends.
#[derive(Debug, Clone, Copy, PartialEq, Eq, Structural)]
pub enum ClientPacketID {
    PlayerIdent,
    SetBlock,
    Position,
    Message,
}

impl ClientPacketID {
    /// The opcode of this kind of packet.
    pub open spec fn spec_id(self) -> u8 {
        match self {
            ClientPacketID::PlayerIdent => 0x00,
            ClientPacketID::SetBlock => 0x05,
            ClientPacketID::Position => 0x08,
            ClientPacketID::Message => 0x0d,
        }
    }

    /// Number of bytes that follow the opcode.
    pub open spec fn spec_size(self) -> nat {
        match self {
            ClientPacketID::PlayerIdent => 130,
            ClientPacketID::SetBlock => 8,
            ClientPacketID::Position => 9,
            ClientPacketID::Message => 65,
        }
    }

    /// The kind of packet with opcode `opcode`, if there is one.
    pub open spec fn spec_from_u8(opcode: u8) -> Option<ClientPacketID> {
        match opcode {
            0x00 => Some(ClientPacketID::PlayerIdent),
            0x05 => Some(ClientPacketID::SetBlock),
            0x08 => Some(ClientPacketID::Position),
            0x0d => Some(ClientPacketID::Message),
            _ => None,
        }
    }

    /// The opcode of this kind of packet.
    pub fn id(self) -> (opcode: u8)
        ensures
            opcode == self.spec_id(),
            ClientPacketID::spec_from_u8(opcode) == Some(self),
    {
        match self {
            ClientPacketID::PlayerIdent => 0x00,
            ClientPacketID::SetBlock => 0x05,
            ClientPacketID::Position => 0x08,
            ClientPacketID::Message => 0x0d,
        }
    }

    /// Number of bytes that follow the opcode.
    pub fn size(&self) -> (size: usize)
        ensures
            size == self.spec_size(),
    {
        match self {
            ClientPacketID::PlayerIdent => 130,
            ClientPacketID::SetBlock => 8,
            ClientPacketID::Position => 9,
            ClientPacketID::Message => 65,
        }
    }

    /// The kind of packet with opcode `opcode`, if there is one.
    pub fn from_u8(opcode: u8) -> (kind: Option<ClientPacketID>)
        ensures
            kind == ClientPacketID::spec_from_u8(opcode),
            kind matches Some(k) ==> k.spec_id() == opcode,
    {
        match opcode {
            0x00 => Some(ClientPacketID::PlayerIdent),
            0x05 => Some(ClientPacketID::SetBlock),
            0x08 => Some(ClientPacketID::Position),
            0x0d => Some(ClientPacketID::Message),
            _ => None,
        }
    }

    /// Reads the packet of this kind. A short read is a malformed
    /// packet; a block change that names no block is an invalid block.
    pub fn deserialise(&self, reader: &mut PacketReader) -> (packet: Result<
        ClientPacket,
        PacketError,
    >)
        ensures
            final(reader).remaining() == spec_rest(old(reader).remaining(), self.spec_size()),
            match packet {
                Ok(p) => {
                    &&& old(reader).remaining().len() >= self.spec_size()
                    &&& p.spec_kind() == *self
                    &&& p.spec_matches(old(reader).remaining().take(self.spec_size() as int))
                    &&& p.wf()
                },
                Err(e) => if old(reader).remaining().len() < self.spec_size() {
                    e == PacketError::MalformedPacket
                } else {
                    &&& *self == ClientPacketID::SetBlock
                    &&& old(reader).remaining()[7] >= BLOCK_COUNT
                    &&& e == PacketError::InvalidBlock
                },
            },
    {
        match self {
            ClientPacketID::PlayerIdent => match PlayerIdentPacket::deserialise(reader) {
                Ok(p) => Ok(ClientPacket::PlayerIdent(p)),
                Err(e) => Err(e),
            },
            ClientPacketID::SetBlock => match SetBlockPacket::deserialise(reader) {
                Ok(p) => Ok(ClientPacket::SetBlock(p)),
                Err(e) => Err(e),
            },
            ClientPacketID::Position => match PositionPacket::deserialise(reader) {
                Ok(p) => Ok(ClientPacket::Position(p)),
                Err(e) => Err(e),
            },
            ClientPacketID::Message => match MessagePacket::deserialise(reader) {
                Ok(p) => Ok(ClientPacket::Message(p)),
                Err(e) => Err(e),
            },
        }
    }
}

/// A packet that a client sends.
#[derive(Debug, Clone, Copy)]
pub enum ClientPacket {
    PlayerIdent(PlayerIdentPacket),
    SetBlock(SetBlockPacket),
    Position(PositionPacket),
    Message(MessagePacket),
}

impl ClientPacket {
    /// The kind of this packet.
    pub open spec fn spec_kind(&self) -> ClientPacketID {
        match self {
            ClientPacket::PlayerIdent(_) => ClientPacketID::PlayerIdent,
            ClientPacket::SetBlock(_) => ClientPacketID::SetBlock,
            ClientPacket::Position(_) => ClientPacketID::Position,
            ClientPacket::Message(_) => ClientPacketID::Message,
        }
    }

    /// The packet's fields as they stand on the wire, after the opcode.
    pub open spec fn spec_payload(&self) -> Seq<u8> {
        match self {
            ClientPacket::PlayerIdent(p) => p.spec_payload(),
            ClientPacket::SetBlock(p) => p.spec_payload(),
            ClientPacket::Position(p) => p.spec_payload(),
            ClientPacket::Message(p) => p.spec_payload(),
        }
    }

    /// The packet as it stands on the wire: the opcode, then the fields.
    pub open spec fn spec_encoding(&self) -> Seq<u8> {
        seq![self.spec_kind().spec_id()] + self.spec_payload()
    }

    /// Whether the fields are the ones that `bytes` hold.
    pub open spec fn spec_matches(&self, bytes: Seq<u8>) -> bool {
        match self {
            ClientPacket::PlayerIdent(p) => p.spec_matches(bytes),
            ClientPacket::SetBlock(p) => p.spec_matches(bytes),
            ClientPacket::Position(p) => p.spec_matches(bytes),
            ClientPacket::Message(p) => p.spec_matches(bytes),
        }
    }

    /// A block change names a block; the other packets carry any bytes.
    pub open spec fn wf(&self) -> bool {
        match self {
            ClientPacket::SetBlock(p) => p.block_type < BLOCK_COUNT,
            _ => true,
        }
    }

    /// The kind of this packet.
    pub fn kind(&self) -> (kind: ClientPacketID)
        ensures
            kind == self.spec_kind(),
    {
        match self {
            ClientPacket::PlayerIdent(_) => ClientPacketID::PlayerIdent,
            ClientPacket::SetBlock(_) => ClientPacketID::SetBlock,
            ClientPacket::Position(_) => ClientPacketID::Position,
            ClientPacket::Message(_) => ClientPacketID::Message,
        }
    }

    /// Reads the packet with opcode `opcode`. An opcode that names no
    /// packet is refused before anything is read; a short read is a
    /// malformed packet; a block change that names no block is an
    /// invalid block.
    pub fn decode(opcode: u8, reader: &mut PacketReader) -> (packet: Result<
        ClientPacket,
        PacketError,
    >)
        ensures
            match ClientPacketID::spec_from_u8(opcode) {
                None => {
                    &&& packet == Err::<ClientPacket, PacketError>(PacketError::UnknownOpcode)
                    &&& final(reader).remaining() == old(reader).remaining()
                },
                Some(kind) => {
                    &&& final(reader).remaining() == spec_rest(
                        old(reader).remaining(),
                        kind.spec_size(),
                    )
                    &&& match packet {
                        Ok(p) => {
                            &&& old(reader).remaining().len() >= kind.spec_size()
                            &&& p.spec_kind() == kind
                            &&& p.spec_matches(
                                old(reader).remaining().take(kind.spec_size() as int),
                            )
                            &&& p.wf()
                        },
                        Err(e) => if old(reader).remaining().len() < kind.spec_size() {
                            e == PacketError::MalformedPacket
                        } else {
                            &&& kind == ClientPacketID::SetBlock
                            &&& old(reader).remaining()[7] >= BLOCK_COUNT
                            &&& e == PacketError::InvalidBlock
                        },
                    }
                },
            },
    {
        match ClientPacketID::from_u8(opcode) {
            Some(kind) => kind.deserialise(reader),
            None => Err(PacketError::UnknownOpcode),
        }
    }

    /// The packet as it stands on the wire: the opcode, then the fields.
    pub fn encode(&self) -> (bytes: Vec<u8>)
        ensures
            bytes@ == self.spec_encoding(),
            bytes@.len() == 1 + self.spec_kind().spec_size(),
    {
        let mut writer = PacketWriter::new_empty();
        let _ = writer.write_byte(self.kind().id());
        let _ = match self {
            ClientPacket::PlayerIdent(p) => p.serialise(&mut writer),
            ClientPacket::SetBlock(p) => p.serialise(&mut writer),
            ClientPacket::Position(p) => p.serialise(&mut writer),
            ClientPacket::Message(p) => p.serialise(&mut writer),
        };
        proof {
            lemma_write_twice(
                Seq::empty(),
                0,
                seq![self.spec_kind().spec_id()],
                self.spec_payload(),
            );
            lemma_write_at_end(Seq::empty(), self.spec_encoding());
            lemma_client_packet_round_trip(*self, *self);
        }
        writer.into_inner()
    }
}

/// Decoding inverts encoding: the bytes written for a packet are as many
/// as its kind announces, they hold the packet's fields, and no other
/// packet of that kind is read from them.
pub proof fn lemma_client_packet_round_trip(packet: ClientPacket, decoded: ClientPacket)
    ensures
        packet.spec_payload().len() == packet.spec_kind().spec_size(),
        packet.spec_matches(packet.spec_payload()),
        decoded.spec_kind() == packet.spec_kind() && decoded.spec_matches(packet.spec_payload())
            ==> decoded == packet,
{
    match packet {
        ClientPacket::PlayerIdent(p) => {
            match decoded {
                ClientPacket::PlayerIdent(q) => lemma_player_ident_round_trip(p, q),
                _ => lemma_player_ident_round_trip(p, p),
            }
        },
        ClientPacket::SetBlock(p) => {
            match decoded {
                ClientPacket::SetBlock(q) => lemma_set_block_round_trip(p, q),
                _ => lemma_set_block_round_trip(p, p),
            }
        },
        ClientPacket::Position(p) => {
            match decoded {
                ClientPacket::Position(q) => lemma_position_round_trip(p, q),
                _ => lemma_position_round_trip(p, p),
            }
        },
        ClientPacket::Message(p) => {
            match decoded {
                ClientPacket::Message(q) => lemma_message_round_trip(p, q),
                _ => lemma_message_round_trip(p, p),
            }
        },
    }
}

/// Encoding inverts decoding: a packet read from bytes is written as
/// those bytes.
pub proof fn lemma_client_packet_bytes_round_trip(packet: ClientPacket, bytes: Seq<u8>)
    requires
        bytes.len() == packet.spec_kind().spec_size(),
        packet.spec_matches(bytes),
    ensures
        packet.spec_payload() == bytes,
{
    match packet {
        ClientPacket::PlayerIdent(p) => lemma_player_ident_bytes_round_trip(p, bytes),
        ClientPacket::SetBlock(p) => lemma_set_block_bytes_round_trip(p, bytes),
        ClientPacket::Position(p) => lemma_position_bytes_round_trip(p, bytes),
        ClientPacket::Message(p) => lemma_message_bytes_round_trip(p, bytes),
    }
}

/// What a session needs to know of one kind of packet.
#[derive(Debug, Clone, Copy, PartialEq, Eq, Structural)]
pub struct ClientPacketRegistryEntry {
    size: usize,
    kind: ClientPacketID,
}

impl ClientPacketRegistryEntry {
    #[verifier::type_invariant]
    spec fn size_of_its_kind(&self) -> bool {
        self.size == self.kind.spec_size()
    }

    /// The kind of packet this entry stands for.
    pub closed spec fn spec_kind(&self) -> ClientPacketID {
        self.kind
    }

    /// The entry for packets of kind `kind`.
    pub fn new(kind: ClientPacketID) -> (entry: ClientPacketRegistryEntry)
        ensures
            entry.spec_kind() == kind,
    {
        ClientPacketRegistryEntry { size: kind.size(), kind }
    }

    /// The kind of packet this entry stands for.
    pub fn kind(&self) -> (kind: ClientPacketID)
        ensures
            kind == self.spec_kind(),
    {
        self.kind
    }

    /// Number of bytes that follow the opcode.
    pub fn size(&self) -> (size: usize)
        ensures
            size == self.spec_kind().spec_size(),
    {
        proof {
            use_type_invariant(self);
        }
        self.size
    }

    /// Reads the packet that this entry stands for.
    pub fn deserialise(&self, reader: &mut PacketReader) -> (packet: Result<
        ClientPacket,
        PacketError,
    >)
        ensures
            final(reader).remaining() == spec_rest(
                old(reader).remaining(),
                self.spec_kind().spec_size(),
            ),
            match packet {
                Ok(p) => {
                    &&& old(reader).remaining().len() >= self.spec_kind().spec_size()
                    &&& p.spec_kind() == self.spec_kind()
                    &&& p.spec_matches(
                        old(reader).remaining().take(self.spec_kind().spec_size() as int),
                    )
                    &&& p.wf()
                },
                Err(e) => if old(reader).remaining().len() < self.spec_kind().spec_size() {
                    e == PacketError::MalformedPacket
                } else {
                    &&& self.spec_kind() == ClientPacketID::SetBlock
                    &&& old(reader).remaining()[7] >= BLOCK_COUNT
                    &&& e == PacketError::InvalidBlock
                },
            },
    {
        self.kind.deserialise(reader)
    }
}

/// The kinds of packet that sessions accept, by opcode.
#[derive(Debug)]
pub struct ClientPacketRegistry {
    packets: Vec<Option<ClientPacketRegistryEntry>>,
}

impl View for ClientPacketRegistry {
    type V = Seq<Option<ClientPacketRegistryEntry>>;

    closed spec fn view(&self) -> Seq<Option<ClientPacketRegistryEntry>> {
        self.packets@
    }
}

/// The kind registered under `opcode` in `slots`, if any.
pub open spec fn spec_lookup(slots: Seq<Option<ClientPacketRegistryEntry>>, opcode: u8) -> Option<
    ClientPacketID,
> {
    if opcode < slots.len() && slots[opcode as int] is Some {
        Some(slots[opcode as int].unwrap().spec_kind())
    } else {
        None
    }
}

impl ClientPacketRegistry {
    /// Every entry sits under the opcode of its kind.
    pub open spec fn wf(&self) -> bool {
        forall|i: int|
            0 <= i < self@.len() && (#[trigger] self@[i]) is Some
                ==> self@[i].unwrap().spec_kind().spec_id() == i
    }

    /// A registry that accepts nothing.
    pub fn new() -> (registry: ClientPacketRegistry)
        ensures
            registry.wf(),
            registry@.len() == 0,
    {
        ClientPacketRegistry { packets: Vec::new() }
    }

    /// Registers packets of kind `kind` under their opcode. What was
    /// registered under other opcodes stays.
    pub fn register(&mut self, kind: ClientPacketID)
        requires
            old(self).wf(),
        ensures
            final(self).wf(),
            spec_lookup(final(self)@, kind.spec_id()) == Some(kind),
            forall|opcode: u8|
                opcode != kind.spec_id() ==> spec_lookup(final(self)@, opcode) == spec_lookup(
                    old(self)@,
                    opcode,
                ),
    {
        let id = kind.id() as usize;
        while self.packets.len() <= id
            invariant
                self.wf(),
                id == kind.spec_id(),
                old(self)@.len() <= self@.len(),
                forall|i: int| 0 <= i < old(self)@.len() ==> self@[i] == old(self)@[i],
                forall|i: int| old(self)@.len() <= i < self@.len() ==> self@[i] is None,
            decreases id + 1 - self.packets@.len(),
        {
            self.packets.push(None);
        }
        self.packets[id] = Some(ClientPacketRegistryEntry::new(kind));
    }

    /// The entry registered under `id`, if any.
    pub fn get(&self, id: u8) -> (entry: Option<&ClientPacketRegistryEntry>)
        requires
            self.wf(),
        ensures
            match entry {
                Some(e) => spec_lookup(self@, id) == Some(e.spec_kind()),
                None => spec_lookup(self@, id) is None,
            },
    {
        if (id as usize) < self.packets.len() {
            self.packets[id as usize].as_ref()
        } else {
            None
        }
    }
}

/// Registers the four packets of the protocol.
pub fn add_default_packets(registry: &mut ClientPacketRegistry)
    requires
        old(registry).wf(),
    ensures
        final(registry).wf(),
        forall|opcode: u8|
            ClientPacketID::spec_from_u8(opcode) is Some ==> spec_lookup(final(registry)@, opcode)
                == ClientPacketID::spec_from_u8(opcode),
        forall|opcode: u8|
            ClientPacketID::spec_from_u8(opcode) is None ==> spec_lookup(final(registry)@, opcode)
                == spec_lookup(old(registry)@, opcode),
{
    registry.register(ClientPacketID::PlayerIdent);
    registry.register(ClientPacketID::SetBlock);
    registry.register(ClientPacketID::Position);
    registry.register(ClientPacketID::Message);
}

} // verus!
