//! The two packets of the protocol-extension handshake. Either side may
//! send them; the handshake itself is not carried out.

use crate::networking::endian::{
    lemma_i16_be_bytes_round_trip, lemma_i16_be_round_trip, lemma_i32_be_bytes_round_trip,
    lemma_i32_be_round_trip, spec_i16_from_be, spec_i16_to_be, spec_i32_from_be, spec_i32_to_be,
};
use crate::networking::error::PacketError;
use crate::networking::fixed::{Int, Short};
use crate::networking::reader::{spec_rest, PacketReader};
use crate::networking::string::PacketString;
use crate::networking::writer::{lemma_write_twice, PacketWriter, S2CPacket};
use vstd::prelude::*;

verus! {

/// Opens the negotiation of protocol extensions: the name of the software
/// and the number of extensions it is about to list.
#[derive(Debug, Clone, Copy)]
pub struct ExtInfoPacket {
    pub app_name: PacketString,
    pub extension_count: Short,
}

impl ExtInfoPacket {
    /// Whether the fields are the ones that the 66 bytes `bytes` hold.
    pub open spec fn spec_matches(&self, bytes: Seq<u8>) -> bool {
        &&& self.app_name@ == bytes.subrange(0, 64)
        &&& self.extension_count == spec_i16_from_be(bytes[64], bytes[65])
    }

    /// Reads the packet's 66 bytes. A short read is a malformed packet.
    pub fn deserialise(reader: &mut PacketReader) -> (packet: Result<
        ExtInfoPacket,
        PacketError,
    >)
        ensures
            final(reader).remaining() == spec_rest(old(reader).remaining(), 66),
            match packet {
                Ok(p) => old(reader).remaining().len() >= 66 && p.spec_matches(
                    old(reader).remaining().take(66),
                ),
                Err(e) => old(reader).remaining().len() < 66 && e
                    == PacketError::MalformedPacket,
            },
    {
        let ghost bytes = old(reader).remaining();
        let app_name = match reader.read_packet_string() {
            Ok(app_name) => app_name,
            Err(e) => {
                return Err(e);
            },
        };
        assert(reader.remaining() =~= bytes.skip(64));
        let extension_count = match reader.read_short() {
            Ok(extension_count) => extension_count,
            Err(e) => {
                return Err(e);
            },
        };
        assert(reader.remaining() =~= bytes.skip(66));
        assert(app_name@ =~= bytes.take(66).subrange(0, 64));
        Ok(ExtInfoPacket { app_name, extension_count })
    }
}

impl S2CPacket for ExtInfoPacket {
    open spec fn spec_id(&self) -> u8 {
        0x10
    }

    open spec fn spec_payload(&self) -> Seq<u8> {
        self.app_name@ + spec_i16_to_be(self.extension_count)
    }

    fn serialise(&self, writer: &mut PacketWriter) -> (done: Result<(), PacketError>) {
        let _ = writer.write_packet_string(&self.app_name);
        let ghost mut written = self.app_name@;
        let _ = writer.write_short(self.extension_count);
        proof {
            lemma_write_twice(
                old(writer).buffer(),
                old(writer).position() as int,
                written,
                spec_i16_to_be(self.extension_count),
            );
            written = written + spec_i16_to_be(self.extension_count);
        }
        Ok(())
    }

    fn id(&self) -> (id: u8) {
        0x10
    }
}

/// The bytes written for a `ExtInfoPacket` hold its fields, and no other
/// `ExtInfoPacket` is read from them.
pub proof fn lemma_ext_info_round_trip(packet: ExtInfoPacket, decoded: ExtInfoPacket)
    ensures
        packet.spec_payload().len() == 66,
        packet.spec_matches(packet.spec_payload()),
        decoded.spec_matches(packet.spec_payload()) ==> decoded == packet,
{
    lemma_i16_be_round_trip(packet.extension_count);
    let payload = packet.spec_payload();
    assert(payload.subrange(0, 64) =~= packet.app_name@);
    if decoded.spec_matches(payload) {
        assert(decoded.app_name.0 =~= packet.app_name.0);
    }
}

/// The fields read from 66 bytes are written as those bytes.
pub proof fn lemma_ext_info_bytes_round_trip(packet: ExtInfoPacket, bytes: Seq<u8>)
    requires
        bytes.len() == 66,
        packet.spec_matches(bytes),
    ensures
        packet.spec_payload() == bytes,
{
    lemma_i16_be_bytes_round_trip(bytes[64], bytes[65]);
    assert(packet.spec_payload() =~= bytes);
}

/// Names one supported protocol extension and its version.
#[derive(Debug, Clone, Copy)]
pub struct ExtEntryPacket {
    pub ext_name: PacketString,
    pub version: Int,
}

impl ExtEntryPacket {
    /// Whether the fields are the ones that the 68 bytes `bytes` hold.
    pub open spec fn spec_matches(&self, bytes: Seq<u8>) -> bool {
        &&& self.ext_name@ == bytes.subrange(0, 64)
        &&& self.version == spec_i32_from_be(bytes[64], bytes[65], bytes[66], bytes[67])
    }

    /// Reads the packet's 68 bytes. A short read is a malformed packet.
    pub fn deserialise(reader: &mut PacketReader) -> (packet: Result<
        ExtEntryPacket,
        PacketError,
    >)
        ensures
            final(reader).remaining() == spec_rest(old(reader).remaining(), 68),
            match packet {
                Ok(p) => old(reader).remaining().len() >= 68 && p.spec_matches(
                    old(reader).remaining().take(68),
                ),
                Err(e) => old(reader).remaining().len() < 68 && e
                    == PacketError::MalformedPacket,
            },
    {
        let ghost bytes = old(reader).remaining();
        let ext_name = match reader.read_packet_string() {
            Ok(ext_name) => ext_name,
            Err(e) => {
                return Err(e);
            },
        };
        assert(reader.remaining() =~= bytes.skip(64));
        let version = match reader.read_int() {
            Ok(version) => version,
            Err(e) => {
                return Err(e);
            },
        };
        assert(reader.remaining() =~= bytes.skip(68));
        assert(ext_name@ =~= bytes.take(68).subrange(0, 64));
        Ok(ExtEntryPacket { ext_name, version })
    }
}

impl S2CPacket for ExtEntryPacket {
    open spec fn spec_id(&self) -> u8 {
        0x11
    }

    open spec fn spec_payload(&self) -> Seq<u8> {
        self.ext_name@ + spec_i32_to_be(self.version)
    }

    fn serialise(&self, writer: &mut PacketWriter) -> (done: Result<(), PacketError>) {
        let _ = writer.write_packet_string(&self.ext_name);
        let ghost mut written = self.ext_name@;
        let _ = writer.write_int(self.version);
        proof {
            lemma_write_twice(
                old(writer).buffer(),
                old(writer).position() as int,
                written,
                spec_i32_to_be(self.version),
            );
            written = written + spec_i32_to_be(self.version);
        }
        Ok(())
    }

    fn id(&self) -> (id: u8) {
        0x11
    }
}

/// The bytes written for a `ExtEntryPacket` hold its fields, and no other
/// `ExtEntryPacket` is read from them.
pub proof fn lemma_ext_entry_round_trip(packet: ExtEntryPacket, decoded: ExtEntryPacket)
    ensures
        packet.spec_payload().len() == 68,
        packet.spec_matches(packet.spec_payload()),
        decoded.spec_matches(packet.spec_payload()) ==> decoded == packet,
{
    lemma_i32_be_round_trip(packet.version);
    let payload = packet.spec_payload();
    assert(payload.subrange(0, 64) =~= packet.ext_name@);
    if decoded.spec_matches(payload) {
        assert(decoded.ext_name.0 =~= packet.ext_name.0);
    }
}

/// The fields read from 68 bytes are written as those bytes.
pub proof fn lemma_ext_entry_bytes_round_trip(packet: ExtEntryPacket, bytes: Seq<u8>)
    requires
        bytes.len() == 68,
        packet.spec_matches(bytes),
    ensures
        packet.spec_payload() == bytes,
{
    lemma_i32_be_bytes_round_trip(bytes[64], bytes[65], bytes[66], bytes[67]);
    assert(packet.spec_payload() =~= bytes);
}
} // verus!
