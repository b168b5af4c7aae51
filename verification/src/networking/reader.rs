//! Reading the fields of a packet out of a buffer, front to back.

use crate::networking::endian::{read_i16_be, read_i32_be, spec_i16_from_be, spec_i32_from_be};
use crate::networking::error::PacketError;
use crate::networking::fixed::{i8_from_byte, spec_i8_from_byte, FByte, FShort};
use crate::networking::string::PacketString;
use vstd::prelude::*;
use vstd::slice::slice_subrange;

verus! {

/// What is left to read after `count` bytes were asked of `remaining`:
/// the rest on success, nothing after a short read.
pub open spec fn spec_rest(remaining: Seq<u8>, count: nat) -> Seq<u8> {
    if remaining.len() >= count {
        remaining.skip(count as int)
    } else {
        Seq::empty()
    }
}

/// A buffer of bytes with a read position.
#[derive(Debug)]
pub struct PacketReader {
    buffer: Vec<u8>,
    position: usize,
}

impl PacketReader {
    #[verifier::type_invariant]
    spec fn position_in_buffer(&self) -> bool {
        self.position <= self.buffer@.len()
    }

    /// The bytes that have not been read yet.
    pub closed spec fn remaining(&self) -> Seq<u8> {
        self.buffer@.skip(self.position as int)
    }

    /// A reader at the start of `data`.
    pub fn new(data: Vec<u8>) -> (reader: PacketReader)
        ensures
            reader.remaining() == data@,
    {
        PacketReader { buffer: data, position: 0 }
    }

    /// Number of bytes that have not been read yet.
    pub fn remaining_len(&self) -> (len: usize)
        ensures
            len == self.remaining().len(),
    {
        proof {
            use_type_invariant(self);
        }
        self.buffer.len() - self.position
    }

    /// Moves past `count` bytes and returns where they start, or moves to
    /// the end of the buffer if fewer are left.
    fn advance(&mut self, count: usize) -> (start: Option<usize>)
        ensures
            final(self).buffer == old(self).buffer,
            final(self).remaining() == spec_rest(old(self).remaining(), count as nat),
            match start {
                Some(start) => {
                    &&& start == old(self).position
                    &&& start + count <= old(self).buffer@.len()
                    &&& old(self).remaining().len() >= count
                    &&& old(self).remaining().take(count as int) == old(self).buffer@.subrange(
                        start as int,
                        start + count,
                    )
                },
                None => old(self).remaining().len() < count,
            },
    {
        proof {
            use_type_invariant(&*self);
        }
        let start = self.position;
        if self.buffer.len() - start >= count {
            self.position = start + count;
            assert(self.remaining() =~= old(self).remaining().skip(count as int));
            assert(old(self).remaining().take(count as int) =~= old(self).buffer@.subrange(
                start as int,
                start + count,
            ));
            Some(start)
        } else {
            self.position = self.buffer.len();
            assert(self.remaining() =~= Seq::<u8>::empty());
            None
        }
    }

    /// Reads one unsigned byte.
    pub fn read_byte(&mut self) -> (byte: Result<u8, PacketError>)
        ensures
            final(self).remaining() == spec_rest(old(self).remaining(), 1),
            match byte {
                Ok(b) => old(self).remaining().len() >= 1 && b == old(self).remaining()[0],
                Err(e) => old(self).remaining().len() < 1 && e == PacketError::MalformedPacket,
            },
    {
        match self.advance(1) {
            Some(start) => {
                assert(old(self).remaining().take(1)[0] == old(self).remaining()[0]);
                Ok(self.buffer[start])
            },
            None => Err(PacketError::MalformedPacket),
        }
    }

    /// Reads one signed byte.
    pub fn read_sbyte(&mut self) -> (byte: Result<i8, PacketError>)
        ensures
            final(self).remaining() == spec_rest(old(self).remaining(), 1),
            match byte {
                Ok(b) => old(self).remaining().len() >= 1 && b == spec_i8_from_byte(
                    old(self).remaining()[0],
                ),
                Err(e) => old(self).remaining().len() < 1 && e == PacketError::MalformedPacket,
            },
    {
        match self.read_byte() {
            Ok(b) => Ok(i8_from_byte(b)),
            Err(e) => Err(e),
        }
    }

    /// Reads a one-byte fixed-point number.
    pub fn read_fbyte(&mut self) -> (value: Result<FByte, PacketError>)
        ensures
            final(self).remaining() == spec_rest(old(self).remaining(), 1),
            match value {
                Ok(v) => old(self).remaining().len() >= 1 && v.0 == spec_i8_from_byte(
                    old(self).remaining()[0],
                ),
                Err(e) => old(self).remaining().len() < 1 && e == PacketError::MalformedPacket,
            },
    {
        match self.read_sbyte() {
            Ok(b) => Ok(FByte(b)),
            Err(e) => Err(e),
        }
    }

    /// Reads a big-endian signed 16-bit integer.
    pub fn read_short(&mut self) -> (value: Result<i16, PacketError>)
        ensures
            final(self).remaining() == spec_rest(old(self).remaining(), 2),
            match value {
                Ok(v) => old(self).remaining().len() >= 2 && v == spec_i16_from_be(
                    old(self).remaining()[0],
                    old(self).remaining()[1],
                ),
                Err(e) => old(self).remaining().len() < 2 && e == PacketError::MalformedPacket,
            },
    {
        match self.advance(2) {
            Some(start) => {
                let len: usize = self.buffer.len();
                assert(start + 2 <= len);
                let bytes = slice_subrange(self.buffer.as_slice(), start, start + 2);
                assert(bytes@[0] == old(self).remaining()[0]);
                assert(bytes@[1] == old(self).remaining()[1]);
                Ok(read_i16_be(bytes))
            },
            None => Err(PacketError::MalformedPacket),
        }
    }

    /// Reads a big-endian signed 32-bit integer.
    pub fn read_int(&mut self) -> (value: Result<i32, PacketError>)
        ensures
            final(self).remaining() == spec_rest(old(self).remaining(), 4),
            match value {
                Ok(v) => old(self).remaining().len() >= 4 && v == spec_i32_from_be(
                    old(self).remaining()[0],
                    old(self).remaining()[1],
                    old(self).remaining()[2],
                    old(self).remaining()[3],
                ),
                Err(e) => old(self).remaining().len() < 4 && e == PacketError::MalformedPacket,
            },
    {
        match self.advance(4) {
            Some(start) => {
                let len: usize = self.buffer.len();
                assert(start + 4 <= len);
                let bytes = slice_subrange(self.buffer.as_slice(), start, start + 4);
                assert(bytes@[0] == old(self).remaining()[0]);
                assert(bytes@[1] == old(self).remaining()[1]);
                assert(bytes@[2] == old(self).remaining()[2]);
                assert(bytes@[3] == old(self).remaining()[3]);
                Ok(read_i32_be(bytes))
            },
            None => Err(PacketError::MalformedPacket),
        }
    }

    /// Reads a two-byte fixed-point number.
    pub fn read_fshort(&mut self) -> (value: Result<FShort, PacketError>)
        ensures
            final(self).remaining() == spec_rest(old(self).remaining(), 2),
            match value {
                Ok(v) => old(self).remaining().len() >= 2 && v.0 == spec_i16_from_be(
                    old(self).remaining()[0],
                    old(self).remaining()[1],
                ),
                Err(e) => old(self).remaining().len() < 2 && e == PacketError::MalformedPacket,
            },
    {
        match self.read_short() {
            Ok(v) => Ok(FShort(v)),
            Err(e) => Err(e),
        }
    }

    /// Reads a 64-byte string field.
    pub fn read_packet_string(&mut self) -> (value: Result<PacketString, PacketError>)
        ensures
            final(self).remaining() == spec_rest(old(self).remaining(), 64),
            match value {
                Ok(v) => old(self).remaining().len() >= 64 && v@ == old(self).remaining().take(64),
                Err(e) => old(self).remaining().len() < 64 && e == PacketError::MalformedPacket,
            },
    {
        match self.advance(64) {
            Some(start) => {
                let len: usize = self.buffer.len();
                let mut data = [0u8; 64];
                let mut i: usize = 0;
                while i < 64
                    invariant
                        i <= 64,
                        start + 64 <= self.buffer@.len() <= usize::MAX,
                        forall|j: int| 0 <= j < i ==> data@[j] == self.buffer@[start + j],
                    decreases 64 - i,
                {
                    data[i] = self.buffer[start + i];
                    i += 1;
                }
                assert(data@ =~= old(self).remaining().take(64));
                Ok(PacketString::new(data))
            },
            None => Err(PacketError::MalformedPacket),
        }
    }

    /// Reads a 1024-byte array.
    pub fn read_byte_array(&mut self) -> (value: Result<[u8; 1024], PacketError>)
        ensures
            final(self).remaining() == spec_rest(old(self).remaining(), 1024),
            match value {
                Ok(v) => old(self).remaining().len() >= 1024 && v@ == old(self).remaining().take(
                    1024,
                ),
                Err(e) => old(self).remaining().len() < 1024 && e == PacketError::MalformedPacket,
            },
    {
        match self.advance(1024) {
            Some(start) => {
                let len: usize = self.buffer.len();
                let mut data = [0u8; 1024];
                let mut i: usize = 0;
                while i < 1024
                    invariant
                        i <= 1024,
                        start + 1024 <= self.buffer@.len() <= usize::MAX,
                        forall|j: int| 0 <= j < i ==> data@[j] == self.buffer@[start + j],
                    decreases 1024 - i,
                {
                    data[i] = self.buffer[start + i];
                    i += 1;
                }
                assert(data@ =~= old(self).remaining().take(1024));
                Ok(data)
            },
            None => Err(PacketError::MalformedPacket),
        }
    }
}

} // verus!
