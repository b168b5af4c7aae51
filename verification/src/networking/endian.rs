//! Big-endian integers: what the bytes of a 16-bit and of a 32-bit signed
//! integer are, and the calls into `byteorder` that produce and read them.

use byteorder::{BigEndian, ByteOrder};
use vstd::prelude::*;

verus! {

/// The signed 16-bit integer whose big-endian two's-complement bytes are `hi`, `lo`.
pub open spec fn spec_i16_from_be(hi: u8, lo: u8) -> int {
    let unsigned = hi as int * 256 + lo as int;
    if unsigned < 0x8000 {
        unsigned
    } else {
        unsigned - 0x1_0000
    }
}

/// The two big-endian two's-complement bytes of `n`.
pub open spec fn spec_i16_to_be(n: i16) -> Seq<u8> {
    let unsigned = if n >= 0 {
        n as int
    } else {
        n as int + 0x1_0000
    };
    seq![(unsigned / 256) as u8, (unsigned % 256) as u8]
}

/// The signed 32-bit integer whose big-endian two's-complement bytes are `b0` to `b3`.
pub open spec fn spec_i32_from_be(b0: u8, b1: u8, b2: u8, b3: u8) -> int {
    let unsigned = b0 as int * 0x100_0000 + b1 as int * 0x1_0000 + b2 as int * 0x100 + b3 as int;
    if unsigned < 0x8000_0000 {
        unsigned
    } else {
        unsigned - 0x1_0000_0000
    }
}

/// The four big-endian two's-complement bytes of `n`.
pub open spec fn spec_i32_to_be(n: i32) -> Seq<u8> {
    let unsigned = if n >= 0 {
        n as int
    } else {
        n as int + 0x1_0000_0000
    };
    seq![
        (unsigned / 0x100_0000) as u8,
        (unsigned / 0x1_0000 % 256) as u8,
        (unsigned / 0x100 % 256) as u8,
        (unsigned % 256) as u8,
    ]
}

/// Reading the bytes written for a 16-bit integer gives the integer back.
pub proof fn lemma_i16_be_round_trip(n: i16)
    ensures
        spec_i16_to_be(n).len() == 2,
        spec_i16_from_be(spec_i16_to_be(n)[0], spec_i16_to_be(n)[1]) == n,
{
}

/// Writing the integer read from two bytes gives the two bytes back.
pub proof fn lemma_i16_be_bytes_round_trip(hi: u8, lo: u8)
    ensures
        i16::MIN <= spec_i16_from_be(hi, lo) <= i16::MAX,
        spec_i16_to_be(spec_i16_from_be(hi, lo) as i16) == seq![hi, lo],
{
    let n = spec_i16_from_be(hi, lo) as i16;
    assert(spec_i16_to_be(n) =~= seq![hi, lo]);
}

/// Reading the bytes written for a 32-bit integer gives the integer back.
pub proof fn lemma_i32_be_round_trip(n: i32)
    ensures
        spec_i32_to_be(n).len() == 4,
        spec_i32_from_be(
            spec_i32_to_be(n)[0],
            spec_i32_to_be(n)[1],
            spec_i32_to_be(n)[2],
            spec_i32_to_be(n)[3],
        ) == n,
{
}

/// Writing the integer read from four bytes gives the four bytes back.
pub proof fn lemma_i32_be_bytes_round_trip(b0: u8, b1: u8, b2: u8, b3: u8)
    ensures
        i32::MIN <= spec_i32_from_be(b0, b1, b2, b3) <= i32::MAX,
        spec_i32_to_be(spec_i32_from_be(b0, b1, b2, b3) as i32) == seq![b0, b1, b2, b3],
{
    let n = spec_i32_from_be(b0, b1, b2, b3) as i32;
    let low = b1 as int * 0x1_0000 + b2 as int * 0x100 + b3 as int;
    let unsigned = b0 as int * 0x100_0000 + low;
    assert(0 <= low < 0x100_0000);
    assert(unsigned / 0x100_0000 == b0 as int);
    assert(unsigned / 0x1_0000 == b0 as int * 256 + b1 as int);
    assert(unsigned / 0x100 == b0 as int * 0x1_0000 + b1 as int * 256 + b2 as int);
    assert(spec_i32_to_be(n) =~= seq![b0, b1, b2, b3]);
}

/// Calls `byteorder::BigEndian::read_i16`, which reads the first two bytes of
/// `buf` as a big-endian signed integer and panics on a shorter slice.
#[verifier::external_body]
pub(crate) fn read_i16_be(buf: &[u8]) -> (n: i16)
    requires
        buf@.len() >= 2,
    ensures
        n == spec_i16_from_be(buf@[0], buf@[1]),
{
    BigEndian::read_i16(buf)
}

/// Calls `byteorder::BigEndian::write_i16` on a fresh two-byte buffer: the
/// result holds the big-endian bytes of `n`.
#[verifier::external_body]
pub(crate) fn write_i16_be(n: i16) -> (bytes: [u8; 2])
    ensures
        bytes@ == spec_i16_to_be(n),
{
    let mut buf = [0u8; 2];
    BigEndian::write_i16(&mut buf, n);
    buf
}

/// Calls `byteorder::BigEndian::read_i32`, which reads the first four bytes of
/// `buf` as a big-endian signed integer and panics on a shorter slice.
#[verifier::external_body]
pub(crate) fn read_i32_be(buf: &[u8]) -> (n: i32)
    requires
        buf@.len() >= 4,
    ensures
        n == spec_i32_from_be(buf@[0], buf@[1], buf@[2], buf@[3]),
{
    BigEndian::read_i32(buf)
}

/// Calls `byteorder::BigEndian::write_i32` on a fresh four-byte buffer: the
/// result holds the big-endian bytes of `n`.
#[verifier::external_body]
pub(crate) fn write_i32_be(n: i32) -> (bytes: [u8; 4])
    ensures
        bytes@ == spec_i32_to_be(n),
{
    let mut buf = [0u8; 4];
    BigEndian::write_i32(&mut buf, n);
    buf
}

} // verus!
