//! What happens in the world, as the world actor hears of it.

use crate::block::Block;
use crate::player::{Position, Rotation, SessionHandle};
use crate::world::Coords;
use vstd::prelude::*;

verus! {

/// Stands for the network address of a client: the listener gives every
/// connection it accepts an address of its own.
pub type PeerAddr = u64;

/// A client has identified itself and joins the world.
#[derive(Debug)]
pub struct PlayerJoinEvent {
    pub entity_id: SessionHandle,
    pub username: String,
    /// Whether the client announced support for protocol extensions.
    pub cpe: bool,
}

/// A player placed or destroyed a block.
#[derive(Debug, Clone, Copy, PartialEq, Eq, Structural)]
pub struct SetBlockEvent {
    pub pos: Coords,
    /// `true` where the block was placed, `false` where one was destroyed.
    pub placed: bool,
    /// The block the player holds.
    pub block: Block,
}

/// A player reported where it stands and looks.
#[derive(Debug, Clone, Copy, PartialEq, Eq, Structural)]
pub struct PlayerMoveEvent {
    pub entity_id: SessionHandle,
    pub pos: Position,
    pub rot: Rotation,
}

/// A player said something.
#[derive(Debug)]
pub struct PlayerMessageEvent {
    pub entity_id: SessionHandle,
    pub message: String,
}

/// The connection from this address is gone.
#[derive(Debug, Clone, Copy, PartialEq, Eq, Structural)]
pub struct PlayerDisconnectEvent(pub PeerAddr);

} // verus!
