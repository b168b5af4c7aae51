//! The wire protocol: field types, packets in both directions, and the
//! framing decisions of a client session.

pub mod c2s;
pub mod client_packet;
pub mod endian;
pub mod error;
pub mod extension;
pub mod fixed;
pub mod level;
pub mod listener;
pub mod movement;
pub mod reader;
pub mod s2c;
pub mod server_packet;
pub mod string;
pub mod writer;

pub use error::PacketError;
pub use fixed::{Byte, ByteArray, FByte, FShort, Int, SByte, Short};
pub use string::PacketString;
