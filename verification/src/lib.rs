//! Core of a server for the classic block-world protocol, version 7:
//! the wire codec, the block world, player-id allocation, and the
//! state machines of a client session and of the world actor.

use vstd::prelude::*;

pub mod actor;
pub mod block;
pub mod compress;
pub mod event;
pub mod networking;
pub mod player;
pub mod saver;
pub mod world;

verus! {

/// Name under which the server software identifies itself.
pub const SOFTWARE_NAME: &'static str = "Vintage";

} // verus!
