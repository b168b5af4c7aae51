//! What can go wrong while reading or building packets.

use vstd::prelude::*;

verus! {

/// Why a packet could not be read or built.
#[derive(Debug, Clone, Copy, PartialEq, Eq, Structural)]
pub enum PacketError {
    /// The data ends before the packet is complete.
    MalformedPacket,
    /// The opcode names no packet.
    UnknownOpcode,
    /// A block field holds a byte that names no block.
    InvalidBlock,
    /// A string needs more than 64 bytes.
    StringTooLong,
}

} // verus!
