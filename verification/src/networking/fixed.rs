//! Field types of the protocol: plain integers under the protocol's names,
//! and the two fixed-point numbers.

use vstd::prelude::*;

verus! {

pub type Byte = u8;

pub type SByte = i8;

pub type Short = i16;

pub type Int = i32;

pub type ByteArray = [u8; 1024];

/// Units of a fixed-point number in one block.
pub const FIXED_POINT_SCALE: u16 = 32;

/// A fixed-point number of one signed byte: the value is `self.0 / 32`
/// blocks. Used for small changes of position.
#[derive(Debug, Clone, Copy, PartialEq, Eq, Structural)]
pub struct FByte(pub i8);

/// A fixed-point number of two signed bytes: the value is `self.0 / 32`
/// blocks. Used for positions.
#[derive(Debug, Clone, Copy, PartialEq, Eq, Structural)]
pub struct FShort(pub i16);

/// The signed byte with the same bits as `byte`.
pub open spec fn spec_i8_from_byte(byte: u8) -> i8 {
    if byte < 0x80 {
        byte as i8
    } else {
        (byte - 0x100) as i8
    }
}

/// The unsigned byte with the same bits as `value`.
pub open spec fn spec_i8_to_byte(value: i8) -> u8 {
    if value >= 0 {
        value as u8
    } else {
        (value + 0x100) as u8
    }
}

/// The signed byte with the same bits as `byte`.
pub fn i8_from_byte(byte: u8) -> (value: i8)
    ensures
        value == spec_i8_from_byte(byte),
        spec_i8_to_byte(value) == byte,
{
    if byte < 0x80 {
        byte as i8
    } else {
        (byte as i16 - 0x100) as i8
    }
}

/// The unsigned byte with the same bits as `value`.
pub fn i8_to_byte(value: i8) -> (byte: u8)
    ensures
        byte == spec_i8_to_byte(value),
        spec_i8_from_byte(byte) == value,
{
    if value >= 0 {
        value as u8
    } else {
        (value as i16 + 0x100) as u8
    }
}

/// A signed byte and the unsigned byte with its bits determine each other.
pub proof fn lemma_i8_byte_round_trip(value: i8, byte: u8)
    ensures
        spec_i8_from_byte(spec_i8_to_byte(value)) == value,
        spec_i8_to_byte(spec_i8_from_byte(byte)) == byte,
{
}

} // verus!
