//! Writing the fields of a packet into a growing buffer.

use crate::networking::endian::{spec_i16_to_be, spec_i32_to_be, write_i16_be, write_i32_be};
use crate::networking::error::PacketError;
use crate::networking::fixed::{i8_to_byte, spec_i8_to_byte, FByte, FShort};
use crate::networking::string::{spec_pad, PacketString};
use vstd::prelude::*;
use vstd::string::StringSliceAdditionalSpecFns;

verus! {

/// The buffer after `bytes` were written at `position`: what stood there
/// is overwritten, and the buffer grows where the bytes reach past its end.
#[verifier::opaque]
pub open spec fn spec_write_at(buffer: Seq<u8>, position: int, bytes: Seq<u8>) -> Seq<u8> {
    let end = position + bytes.len();
    buffer.take(position) + bytes + if end < buffer.len() {
        buffer.skip(end)
    } else {
        Seq::empty()
    }
}

/// A buffer of bytes with a write position.
#[derive(Debug)]
pub struct PacketWriter {
    buffer: Vec<u8>,
    position: usize,
}

/// A packet that the server sends.
pub trait S2CPacket {
    /// The packet's opcode.
    spec fn spec_id(&self) -> u8;

    /// The packet's fields as they stand on the wire, after the opcode.
    spec fn spec_payload(&self) -> Seq<u8>;

    /// Writes the packet's fields, in order and without padding.
    fn serialise(&self, writer: &mut PacketWriter) -> (done: Result<(), PacketError>)
        requires
            old(writer).wf(),
        ensures
            final(writer).wf(),
            done is Ok,
            final(writer).buffer() == spec_write_at(
                old(writer).buffer(),
                old(writer).position() as int,
                self.spec_payload(),
            ),
            final(writer).position() == old(writer).position() + self.spec_payload().len(),
    ;

    /// The packet's opcode.
    fn id(&self) -> (id: u8)
        ensures
            id == self.spec_id(),
    ;
}

impl PacketWriter {
    /// The position lies inside the buffer or at its end.
    pub open spec fn wf(&self) -> bool {
        self.position() <= self.buffer().len()
    }

    /// The bytes held so far.
    pub closed spec fn buffer(&self) -> Seq<u8> {
        self.buffer@
    }

    /// Where the next byte goes.
    pub closed spec fn position(&self) -> nat {
        self.position as nat
    }

    /// A writer that starts at the front of `data` and overwrites it.
    pub fn new(data: Vec<u8>) -> (writer: PacketWriter)
        ensures
            writer.wf(),
            writer.buffer() == data@,
            writer.position() == 0,
    {
        PacketWriter { buffer: data, position: 0 }
    }

    /// A writer with nothing in it.
    pub fn new_empty() -> (writer: PacketWriter)
        ensures
            writer.wf(),
            writer.buffer() == Seq::<u8>::empty(),
            writer.position() == 0,
    {
        PacketWriter { buffer: Vec::new(), position: 0 }
    }

    /// A writer with nothing in it and room for `capacity` bytes.
    pub fn new_with_capacity(capacity: usize) -> (writer: PacketWriter)
        ensures
            writer.wf(),
            writer.buffer() == Seq::<u8>::empty(),
            writer.position() == 0,
    {
        PacketWriter { buffer: Vec::with_capacity(capacity), position: 0 }
    }

    /// Gives up the buffer.
    pub fn into_inner(self) -> (data: Vec<u8>)
        ensures
            data@ == self.buffer(),
    {
        self.buffer
    }

    /// Writes the packet's opcode and then its fields.
    pub fn write_packet<P: S2CPacket>(&mut self, packet: &P) -> (done: Result<(), PacketError>)
        requires
            old(self).wf(),
        ensures
            final(self).wf(),
            done is Ok,
            final(self).buffer() == spec_write_at(
                old(self).buffer(),
                old(self).position() as int,
                seq![packet.spec_id()] + packet.spec_payload(),
            ),
            final(self).position() == old(self).position() + 1 + packet.spec_payload().len(),
    {
        let _ = self.write_byte(packet.id());
        let _ = packet.serialise(self);
        proof {
            lemma_write_twice(
                old(self).buffer(),
                old(self).position() as int,
                seq![packet.spec_id()],
                packet.spec_payload(),
            );
        }
        Ok(())
    }

    fn write_bytes(&mut self, bytes: &[u8])
        requires
            old(self).wf(),
        ensures
            final(self).wf(),
            final(self).buffer() == spec_write_at(
                old(self).buffer(),
                old(self).position() as int,
                bytes@,
            ),
            final(self).position() == old(self).position() + bytes@.len(),
    {
        reveal(spec_write_at);
        let mut i: usize = 0;
        assert(bytes@.take(0) =~= Seq::<u8>::empty());
        assert(self.buffer@ =~= spec_write_at(
            old(self).buffer@,
            old(self).position as int,
            bytes@.take(0),
        ));
        while i < bytes.len()
            invariant
                i <= bytes@.len(),
                old(self).position <= old(self).buffer@.len(),
                self.position == old(self).position + i,
                self.position <= self.buffer@.len(),
                self.buffer@ == spec_write_at(
                    old(self).buffer@,
                    old(self).position as int,
                    bytes@.take(i as int),
                ),
            decreases bytes@.len() - i,
        {
            reveal(spec_write_at);
            let len: usize = self.buffer.len();
            if self.position < len {
                self.buffer[self.position] = bytes[i];
            } else {
                self.buffer.push(bytes[i]);
            }
            let len: usize = self.buffer.len();
            self.position = self.position + 1;
            assert(self.buffer@ =~= spec_write_at(
                old(self).buffer@,
                old(self).position as int,
                bytes@.take(i + 1),
            )) by {
                assert(bytes@.take(i + 1) =~= bytes@.take(i as int).push(bytes@[i as int]));
            }
            i += 1;
        }
        assert(bytes@.take(bytes@.len() as int) =~= bytes@);
    }

    /// Writes one unsigned byte.
    pub fn write_byte(&mut self, b: u8) -> (done: Result<(), PacketError>)
        requires
            old(self).wf(),
        ensures
            final(self).wf(),
            done is Ok,
            final(self).buffer() == spec_write_at(
                old(self).buffer(),
                old(self).position() as int,
                seq![b],
            ),
            final(self).position() == old(self).position() + 1,
    {
        let bytes = [b];
        assert(bytes@ =~= seq![b]);
        self.write_bytes(bytes.as_slice());
        Ok(())
    }

    /// Writes one signed byte.
    pub fn write_sbyte(&mut self, b: i8) -> (done: Result<(), PacketError>)
        requires
            old(self).wf(),
        ensures
            final(self).wf(),
            done is Ok,
            final(self).buffer() == spec_write_at(
                old(self).buffer(),
                old(self).position() as int,
                seq![spec_i8_to_byte(b)],
            ),
            final(self).position() == old(self).position() + 1,
    {
        self.write_byte(i8_to_byte(b))
    }

    /// Writes a one-byte fixed-point number.
    pub fn write_fbyte(&mut self, b: &FByte) -> (done: Result<(), PacketError>)
        requires
            old(self).wf(),
        ensures
            final(self).wf(),
            done is Ok,
            final(self).buffer() == spec_write_at(
                old(self).buffer(),
                old(self).position() as int,
                seq![spec_i8_to_byte(b.0)],
            ),
            final(self).position() == old(self).position() + 1,
    {
        self.write_sbyte(b.0)
    }

    /// Writes a signed 16-bit integer, most significant byte first.
    pub fn write_short(&mut self, s: i16) -> (done: Result<(), PacketError>)
        requires
            old(self).wf(),
        ensures
            final(self).wf(),
            done is Ok,
            final(self).buffer() == spec_write_at(
                old(self).buffer(),
                old(self).position() as int,
                spec_i16_to_be(s),
            ),
            final(self).position() == old(self).position() + 2,
    {
        let bytes = write_i16_be(s);
        self.write_bytes(bytes.as_slice());
        Ok(())
    }

    /// Writes a two-byte fixed-point number.
    pub fn write_fshort(&mut self, s: &FShort) -> (done: Result<(), PacketError>)
        requires
            old(self).wf(),
        ensures
            final(self).wf(),
            done is Ok,
            final(self).buffer() == spec_write_at(
                old(self).buffer(),
                old(self).position() as int,
                spec_i16_to_be(s.0),
            ),
            final(self).position() == old(self).position() + 2,
    {
        self.write_short(s.0)
    }

    /// Writes the text `s` as a 64-byte string field. Fails, writing
    /// nothing, exactly when the text needs more than 64 bytes.
    pub fn write_string(&mut self, s: &str) -> (done: Result<(), PacketError>)
        requires
            old(self).wf(),
        ensures
            final(self).wf(),
            match done {
                Ok(_) => {
                    &&& s.spec_bytes().len() <= PacketString::LENGTH
                    &&& final(self).buffer() == spec_write_at(
                        old(self).buffer(),
                        old(self).position() as int,
                        spec_pad(s.spec_bytes()),
                    )
                    &&& final(self).position() == old(self).position() + PacketString::LENGTH
                },
                Err(e) => {
                    &&& s.spec_bytes().len() > PacketString::LENGTH
                    &&& e == PacketError::StringTooLong
                    &&& final(self).buffer() == old(self).buffer()
                    &&& final(self).position() == old(self).position()
                },
            },
    {
        match PacketString::from_str(s) {
            Ok(field) => self.write_packet_string(&field),
            Err(e) => Err(e),
        }
    }

    /// Writes a 64-byte string field.
    pub fn write_packet_string(&mut self, s: &PacketString) -> (done: Result<(), PacketError>)
        requires
            old(self).wf(),
        ensures
            final(self).wf(),
            done is Ok,
            final(self).buffer() == spec_write_at(
                old(self).buffer(),
                old(self).position() as int,
                s@,
            ),
            final(self).position() == old(self).position() + PacketString::LENGTH,
    {
        self.write_bytes(s.0.as_slice());
        Ok(())
    }

    /// Writes a 1024-byte array.
    pub fn write_byte_array(&mut self, buf: &[u8; 1024]) -> (done: Result<(), PacketError>)
        requires
            old(self).wf(),
        ensures
            final(self).wf(),
            done is Ok,
            final(self).buffer() == spec_write_at(
                old(self).buffer(),
                old(self).position() as int,
                buf@,
            ),
            final(self).position() == old(self).position() + 1024,
    {
        self.write_bytes(buf.as_slice());
        Ok(())
    }

    /// Writes a signed 32-bit integer, most significant byte first.
    pub fn write_int(&mut self, i: i32) -> (done: Result<(), PacketError>)
        requires
            old(self).wf(),
        ensures
            final(self).wf(),
            done is Ok,
            final(self).buffer() == spec_write_at(
                old(self).buffer(),
                old(self).position() as int,
                spec_i32_to_be(i),
            ),
            final(self).position() == old(self).position() + 4,
    {
        let bytes = write_i32_be(i);
        self.write_bytes(bytes.as_slice());
        Ok(())
    }
}

/// Writing `first` and then `second` is writing the two in one piece.
pub proof fn lemma_write_twice(buffer: Seq<u8>, position: int, first: Seq<u8>, second: Seq<u8>)
    requires
        0 <= position <= buffer.len(),
    ensures
        spec_write_at(spec_write_at(buffer, position, first), position + first.len(), second)
            == spec_write_at(buffer, position, first + second),
{
    reveal(spec_write_at);
    assert(spec_write_at(spec_write_at(buffer, position, first), position + first.len(), second)
        =~= spec_write_at(buffer, position, first + second));
}

/// Writing no bytes leaves the buffer as it is.
pub proof fn lemma_write_nothing(buffer: Seq<u8>, position: int)
    requires
        0 <= position <= buffer.len(),
    ensures
        spec_write_at(buffer, position, Seq::empty()) == buffer,
{
    reveal(spec_write_at);
    assert(spec_write_at(buffer, position, Seq::empty()) =~= buffer);
}

/// Writing at the end of a buffer appends.
pub proof fn lemma_write_at_end(buffer: Seq<u8>, bytes: Seq<u8>)
    ensures
        spec_write_at(buffer, buffer.len() as int, bytes) == buffer + bytes,
{
    reveal(spec_write_at);
    assert(spec_write_at(buffer, buffer.len() as int, bytes) =~= buffer + bytes);
}

} // verus!
