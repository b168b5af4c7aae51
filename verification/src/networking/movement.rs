//! Choosing the smallest packet that tells other clients of a player's move.

use crate::networking::fixed::{FByte, FIXED_POINT_SCALE};
use crate::networking::s2c::{
    PlayerOriUpdatePacket, PlayerPosOriUpdatePacket, PlayerPosUpdatePacket, PlayerTeleportPacket,
};
use crate::networking::server_packet::ServerPacket;
use crate::player::{PlayerId, Position, Rotation};
use vstd::prelude::*;

verus! {

/// The square of the distance between two positions, in fixed-point units.
pub open spec fn spec_distance_squared(a: Position, b: Position) -> int {
    let dx = b.x.0 as int - a.x.0 as int;
    let dy = b.y.0 as int - a.y.0 as int;
    let dz = b.z.0 as int - a.z.0 as int;
    dx * dx + dy * dy + dz * dz
}

/// Whether a move from `a` to `b` covers at least `threshold` blocks.
pub open spec fn spec_is_teleport(a: Position, b: Position, threshold: u16) -> bool {
    spec_distance_squared(a, b) >= (threshold as int * FIXED_POINT_SCALE as int) * (threshold as int
        * FIXED_POINT_SCALE as int)
}

/// A change of coordinate as a one-byte fixed-point number; a change that
/// does not fit is cut to the nearest that does.
pub open spec fn spec_delta(from: i16, to: i16) -> FByte {
    let d = to as int - from as int;
    if d > i8::MAX {
        FByte(i8::MAX)
    } else if d < i8::MIN {
        FByte(i8::MIN)
    } else {
        FByte(d as i8)
    }
}

/// The packet that tells of a player's move from `pos1`, `rot1` to
/// `pos2`, `rot2`: a teleport at or beyond the threshold; below it, the
/// smallest update that carries what changed; nothing where nothing changed.
pub open spec fn spec_move_packet(
    pos1: Position,
    pos2: Position,
    rot1: Rotation,
    rot2: Rotation,
    teleport_threshold: u16,
    player_id: PlayerId,
) -> Option<ServerPacket> {
    if spec_is_teleport(pos1, pos2, teleport_threshold) {
        Some(
            ServerPacket::PlayerTeleport(
                PlayerTeleportPacket {
                    player_id,
                    x: pos2.x,
                    y: pos2.y,
                    z: pos2.z,
                    yaw: rot2.yaw,
                    pitch: rot2.pitch,
                },
            ),
        )
    } else if pos1 != pos2 && rot1 != rot2 {
        Some(
            ServerPacket::PlayerPosOriUpdate(
                PlayerPosOriUpdatePacket {
                    player_id,
                    delta_x: spec_delta(pos1.x.0, pos2.x.0),
                    delta_y: spec_delta(pos1.y.0, pos2.y.0),
                    delta_z: spec_delta(pos1.z.0, pos2.z.0),
                    yaw: rot2.yaw,
                    pitch: rot2.pitch,
                },
            ),
        )
    } else if rot1 != rot2 {
        Some(
            ServerPacket::PlayerOriUpdate(
                PlayerOriUpdatePacket { player_id, yaw: rot2.yaw, pitch: rot2.pitch },
            ),
        )
    } else if pos1 != pos2 {
        Some(
            ServerPacket::PlayerPosUpdate(
                PlayerPosUpdatePacket {
                    player_id,
                    delta_x: spec_delta(pos1.x.0, pos2.x.0),
                    delta_y: spec_delta(pos1.y.0, pos2.y.0),
                    delta_z: spec_delta(pos1.z.0, pos2.z.0),
                },
            ),
        )
    } else {
        None
    }
}

fn delta(from: i16, to: i16) -> (d: FByte)
    ensures
        d == spec_delta(from, to),
{
    let d: i32 = to as i32 - from as i32;
    if d > i8::MAX as i32 {
        FByte(i8::MAX)
    } else if d < i8::MIN as i32 {
        FByte(i8::MIN)
    } else {
        FByte(d as i8)
    }
}

fn squared(from: i16, to: i16) -> (sq: u64)
    ensures
        sq == (to as int - from as int) * (to as int - from as int),
        sq <= 0xffff * 0xffff,
{
    let d: i64 = to as i64 - from as i64;
    assert(0 <= d * d <= 0xffff * 0xffff) by (nonlinear_arith)
        requires
            -0xffff <= d <= 0xffff,
    ;
    (d * d) as u64
}

/// Tells whether a move from `a` to `b` covers at least `threshold` blocks.
pub fn is_teleport(a: Position, b: Position, threshold: u16) -> (far: bool)
    ensures
        far == spec_is_teleport(a, b, threshold),
{
    let distance_squared: u64 = squared(a.x.0, b.x.0) + squared(a.y.0, b.y.0) + squared(
        a.z.0,
        b.z.0,
    );
    assert(threshold * FIXED_POINT_SCALE <= 0xffff * 32) by (nonlinear_arith)
        requires
            threshold <= 0xffff,
            FIXED_POINT_SCALE == 32,
    ;
    let limit: u64 = threshold as u64 * FIXED_POINT_SCALE as u64;
    assert(limit * limit <= (0xffff * 32) * (0xffff * 32)) by (nonlinear_arith)
        requires
            0 <= limit <= 0xffff * 32,
    ;
    distance_squared >= limit * limit
}

/// The packet to send to the other clients when a player moves from
/// `pos1`, `rot1` to `pos2`, `rot2`, if any is needed.
pub fn player_move_packet(
    pos1: Position,
    pos2: Position,
    rot1: Rotation,
    rot2: Rotation,
    teleport_threshold: u16,
    player_id: PlayerId,
) -> (packet: Option<ServerPacket>)
    ensures
        packet == spec_move_packet(pos1, pos2, rot1, rot2, teleport_threshold, player_id),
{
    let rotation_changed = rot1 != rot2;
    let position_changed = pos1 != pos2;
    if !is_teleport(pos1, pos2, teleport_threshold) {
        if position_changed && rotation_changed {
            return Some(
                ServerPacket::PlayerPosOriUpdate(
                    PlayerPosOriUpdatePacket {
                        player_id,
                        delta_x: delta(pos1.x.0, pos2.x.0),
                        delta_y: delta(pos1.y.0, pos2.y.0),
                        delta_z: delta(pos1.z.0, pos2.z.0),
                        yaw: rot2.yaw,
                        pitch: rot2.pitch,
                    },
                ),
            );
        }
        if rotation_changed {
            return Some(
                ServerPacket::PlayerOriUpdate(
                    PlayerOriUpdatePacket { player_id, yaw: rot2.yaw, pitch: rot2.pitch },
                ),
            );
        }
        if position_changed {
            return Some(
                ServerPacket::PlayerPosUpdate(
                    PlayerPosUpdatePacket {
                        player_id,
                        delta_x: delta(pos1.x.0, pos2.x.0),
                        delta_y: delta(pos1.y.0, pos2.y.0),
                        delta_z: delta(pos1.z.0, pos2.z.0),
                    },
                ),
            );
        }
        return None;
    }
    Some(
        ServerPacket::PlayerTeleport(
            PlayerTeleportPacket {
                player_id,
                x: pos2.x,
                y: pos2.y,
                z: pos2.z,
                yaw: rot2.yaw,
                pitch: rot2.pitch,
            },
        ),
    )
}

/// A move of exactly the threshold is a teleport.
pub proof fn lemma_threshold_is_inclusive(a: Position, b: Position, threshold: u16)
    requires
        spec_distance_squared(a, b) == (threshold as int * FIXED_POINT_SCALE as int) * (
        threshold as int * FIXED_POINT_SCALE as int),
    ensures
        spec_is_teleport(a, b, threshold),
{
}

/// Where neither position nor orientation changes and the threshold is
/// not zero, no packet is sent.
pub proof fn lemma_no_change_no_packet(
    pos: Position,
    rot: Rotation,
    teleport_threshold: u16,
    player_id: PlayerId,
)
    requires
        teleport_threshold > 0,
    ensures
        spec_move_packet(pos, pos, rot, rot, teleport_threshold, player_id) is None,
{
    assert((teleport_threshold as int * FIXED_POINT_SCALE as int) * (teleport_threshold as int
        * FIXED_POINT_SCALE as int) > 0) by (nonlinear_arith)
        requires
            teleport_threshold > 0,
            FIXED_POINT_SCALE == 32,
    ;
}

/// Below a threshold of three blocks, every change of coordinate fits the
/// one-byte fixed-point number exactly.
pub proof fn lemma_delta_exact(a: Position, b: Position, threshold: u16)
    requires
        threshold <= 3,
        !spec_is_teleport(a, b, threshold),
    ensures
        spec_delta(a.x.0, b.x.0).0 == b.x.0 - a.x.0,
        spec_delta(a.y.0, b.y.0).0 == b.y.0 - a.y.0,
        spec_delta(a.z.0, b.z.0).0 == b.z.0 - a.z.0,
{
    let dx = b.x.0 as int - a.x.0 as int;
    let dy = b.y.0 as int - a.y.0 as int;
    let dz = b.z.0 as int - a.z.0 as int;
    let limit = threshold as int * FIXED_POINT_SCALE as int;
    assert(limit * limit <= 96 * 96) by (nonlinear_arith)
        requires
            0 <= limit <= 96,
    ;
    assert(-96 < dx < 96 && -96 < dy < 96 && -96 < dz < 96) by (nonlinear_arith)
        requires
            dx * dx + dy * dy + dz * dz < 96 * 96,
    ;
}

} // verus!
