//! The decisions of a client session: what to do with each thing that
//! arrives from the socket, from the session's own queue, or from the
//! broadcast channel.

use crate::block::BLOCK_COUNT;
use crate::event::PeerAddr;
use crate::networking::client_packet::{
    spec_lookup, ClientPacket, ClientPacketID, ClientPacketRegistry,
};
use crate::networking::error::PacketError;
use crate::networking::reader::PacketReader;
use crate::networking::server_packet::ServerPacket;
use vstd::prelude::*;

verus! {

/// Number of packets that the queue of one session holds.
pub const OUTBOUND_CAPACITY: usize = 16;

/// Number of events that the queue to the world actor holds.
pub const INBOUND_CAPACITY: usize = 32;

/// Number of packets that the broadcast channel holds for a slow session.
pub const BROADCAST_CAPACITY: usize = 32;

/// What a session tells the world actor.
#[derive(Debug, Clone, Copy)]
pub enum ClientMessage {
    /// A packet arrived from the client.
    Packet(ClientPacket),
    /// The connection from this address is gone.
    Disconnect(PeerAddr),
}

/// Where a session stands in reading from its socket.
#[derive(Debug, Clone, Copy, PartialEq, Eq, Structural)]
pub enum SessionState {
    /// The next byte is an opcode.
    AwaitingOpcode,
    /// The opcode of a packet of this kind was read; its fields follow.
    AwaitingPayload(ClientPacketID),
    /// The session has ended.
    Terminated,
}

/// Something that arrives at a session.
#[derive(Debug)]
pub enum SessionInput {
    /// A packet from the session's own queue.
    Unicast(ServerPacket),
    /// The session's own queue was closed.
    UnicastClosed,
    /// A packet from the broadcast channel.
    Broadcast(ServerPacket),
    /// The session fell behind the broadcast channel and missed packets.
    BroadcastLagged,
    /// The broadcast channel was closed.
    BroadcastClosed,
    /// One byte from the socket, read where an opcode was due.
    Opcode(u8),
    /// The bytes from the socket that were asked for after an opcode.
    Payload(Vec<u8>),
    /// The socket was closed, or reading from it failed.
    ReadFailed,
    /// Writing to the socket failed.
    WriteFailed,
    /// The queue to the world actor was closed.
    InboundClosed,
}

/// Something a session takes note of and goes on.
#[derive(Debug, Clone, Copy, PartialEq, Eq, Structural)]
pub enum SessionWarning {
    /// The client sent an opcode that names no packet.
    UnknownOpcode(u8),
    /// The client asked for a block that does not exist.
    InvalidBlock,
    /// Broadcast packets were missed.
    BroadcastLagged,
}

/// What a session does next.
#[derive(Debug)]
pub enum SessionOutput {
    /// Write these bytes to the socket.
    Write(Vec<u8>),
    /// Read this many bytes from the socket and hand them in as a payload.
    ReadPayload(usize),
    /// Hand this packet to the world actor.
    Forward(ClientPacket),
    /// Log this and go on.
    Warn(SessionWarning),
    /// Tell the world actor that the connection is gone, and stop.
    Disconnect,
    /// Nothing: the session has ended already.
    Nothing,
}

/// Whether `input` ends a session.
pub open spec fn spec_is_fatal(state: SessionState, input: SessionInput) -> bool {
    match input {
        SessionInput::UnicastClosed
        | SessionInput::BroadcastClosed
        | SessionInput::ReadFailed
        | SessionInput::WriteFailed
        | SessionInput::InboundClosed => true,
        SessionInput::Opcode(_) => !(state is AwaitingOpcode),
        SessionInput::Payload(bytes) => match state {
            SessionState::AwaitingPayload(kind) => bytes@.len() != kind.spec_size(),
            _ => true,
        },
        _ => false,
    }
}

/// Whether `next` and `output` are what a session in state `state`, with
/// the packets `registry` registered, does with `input`.
///
/// A session that has ended does nothing. A packet from either channel
/// is written out as opcode and fields. Missed broadcasts are a warning.
/// An opcode that is registered asks for as many bytes as its packet
/// has; any other is a warning and the session waits for the next
/// opcode. A payload is decoded and forwarded, or dropped with a warning
/// where it asks for a block that does not exist. A channel that closes,
/// a socket that fails, an input out of turn and a payload of the wrong
/// length end the session with a disconnect.
pub open spec fn spec_step(
    state: SessionState,
    registry: ClientPacketRegistry,
    input: SessionInput,
    next: SessionState,
    output: SessionOutput,
) -> bool {
    if state is Terminated {
        next is Terminated && output is Nothing
    } else if spec_is_fatal(state, input) {
        next is Terminated && output is Disconnect
    } else {
        match input {
            SessionInput::Unicast(packet) | SessionInput::Broadcast(packet) => {
                &&& next == state
                &&& output matches SessionOutput::Write(bytes)
                &&& bytes@ == packet.spec_encoding()
            },
            SessionInput::BroadcastLagged => {
                &&& next == state
                &&& output == SessionOutput::Warn(SessionWarning::BroadcastLagged)
            },
            SessionInput::Opcode(opcode) => match spec_lookup(registry@, opcode) {
                Some(kind) => {
                    &&& next == SessionState::AwaitingPayload(kind)
                    &&& output matches SessionOutput::ReadPayload(size)
                    &&& size == kind.spec_size()
                },
                None => {
                    &&& next is AwaitingOpcode
                    &&& output == SessionOutput::Warn(SessionWarning::UnknownOpcode(opcode))
                },
            },
            SessionInput::Payload(bytes) => {
                let kind = state->AwaitingPayload_0;
                &&& next is AwaitingOpcode
                &&& if kind == ClientPacketID::SetBlock && bytes@[7] >= BLOCK_COUNT {
                    output == SessionOutput::Warn(SessionWarning::InvalidBlock)
                } else {
                    &&& output matches SessionOutput::Forward(packet)
                    &&& packet.spec_kind() == kind
                    &&& packet.spec_matches(bytes@)
                    &&& packet.wf()
                }
            },
            _ => false,
        }
    }
}

/// Decides what a session does with `input`.
pub fn step(state: SessionState, registry: &ClientPacketRegistry, input: SessionInput) -> (result:
    (SessionState, SessionOutput))
    requires
        registry.wf(),
    ensures
        spec_step(state, *registry, input, result.0, result.1),
{
    if let SessionState::Terminated = state {
        return (SessionState::Terminated, SessionOutput::Nothing);
    }
    match input {
        SessionInput::Unicast(packet) => (state, SessionOutput::Write(packet.encode())),
        SessionInput::Broadcast(packet) => (state, SessionOutput::Write(packet.encode())),
        SessionInput::BroadcastLagged => (
            state,
            SessionOutput::Warn(SessionWarning::BroadcastLagged),
        ),
        SessionInput::Opcode(opcode) => {
            if let SessionState::AwaitingOpcode = state {
                match registry.get(opcode) {
                    Some(entry) => (
                        SessionState::AwaitingPayload(entry.kind()),
                        SessionOutput::ReadPayload(entry.size()),
                    ),
                    None => (
                        SessionState::AwaitingOpcode,
                        SessionOutput::Warn(SessionWarning::UnknownOpcode(opcode)),
                    ),
                }
            } else {
                (SessionState::Terminated, SessionOutput::Disconnect)
            }
        },
        SessionInput::Payload(bytes) => {
            if let SessionState::AwaitingPayload(kind) = state {
                if bytes.len() != kind.size() {
                    return (SessionState::Terminated, SessionOutput::Disconnect);
                }
                let ghost payload = bytes@;
                let mut reader = PacketReader::new(bytes);
                match kind.deserialise(&mut reader) {
                    Ok(packet) => {
                        assert(payload.take(payload.len() as int) =~= payload);
                        (SessionState::AwaitingOpcode, SessionOutput::Forward(packet))
                    },
                    Err(PacketError::InvalidBlock) => (
                        SessionState::AwaitingOpcode,
                        SessionOutput::Warn(SessionWarning::InvalidBlock),
                    ),
                    Err(_) => (SessionState::Terminated, SessionOutput::Disconnect),
                }
            } else {
                (SessionState::Terminated, SessionOutput::Disconnect)
            }
        },
        SessionInput::UnicastClosed => (SessionState::Terminated, SessionOutput::Disconnect),
        SessionInput::BroadcastClosed => (SessionState::Terminated, SessionOutput::Disconnect),
        SessionInput::ReadFailed => (SessionState::Terminated, SessionOutput::Disconnect),
        SessionInput::WriteFailed => (SessionState::Terminated, SessionOutput::Disconnect),
        SessionInput::InboundClosed => (SessionState::Terminated, SessionOutput::Disconnect),
    }
}

} // verus!
