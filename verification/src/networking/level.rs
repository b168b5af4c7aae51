//! Sending a level: cutting the compressed world into chunk packets.

use crate::networking::s2c::{LevelDataChunkPacket, LevelFinalisePacket, LevelInitPacket};
use crate::networking::server_packet::ServerPacket;
use crate::world::{spec_header_fits, spec_serialise, BlockWorld, Coords, WorldError};
use vstd::prelude::*;

verus! {

/// Number of level bytes that one chunk packet carries.
pub const CHUNK_SIZE: usize = 1024;

/// Number of chunk packets that `total` level bytes take.
pub open spec fn spec_chunk_count(total: int) -> int {
    (total + CHUNK_SIZE - 1) / (CHUNK_SIZE as int)
}

/// Number of level bytes in chunk `i` of `total` bytes.
pub open spec fn spec_chunk_length(total: int, i: int) -> int {
    if (i + 1) * CHUNK_SIZE <= total {
        CHUNK_SIZE as int
    } else {
        total - i * CHUNK_SIZE
    }
}

/// The 1024 bytes of chunk `i` of `data`: the level's bytes from
/// `1024 * i` on, and zeros where the level has ended.
pub open spec fn spec_chunk_data(data: Seq<u8>, i: int) -> Seq<u8> {
    Seq::new(
        CHUNK_SIZE as nat,
        |j: int|
            if i * CHUNK_SIZE + j < data.len() {
                data[i * CHUNK_SIZE + j]
            } else {
                0u8
            },
    )
}

/// The share of the level, in hundredths, that was sent before chunk `i`.
pub open spec fn spec_chunk_percent(total: int, i: int) -> int {
    i * CHUNK_SIZE * 100 / total
}

/// Whether `packet` is chunk `i` of the level bytes `data`.
pub open spec fn spec_is_chunk(packet: ServerPacket, data: Seq<u8>, i: int) -> bool {
    match packet {
        ServerPacket::LevelDataChunk(chunk) => {
            &&& chunk.chunk_length == spec_chunk_length(data.len() as int, i)
            &&& chunk.chunk_data@ == spec_chunk_data(data, i)
            &&& chunk.percent_complete == spec_chunk_percent(data.len() as int, i)
        },
        _ => false,
    }
}

/// Whether `packets` is a complete level transfer of the level bytes
/// `data` for a world of dimensions `dims`: the announcement, every chunk
/// in order, and the closing packet with the dimensions.
pub open spec fn spec_is_level_transfer(packets: Seq<ServerPacket>, data: Seq<u8>, dims: Coords)
    -> bool {
    let count = spec_chunk_count(data.len() as int);
    &&& packets.len() == count + 2
    &&& packets[0] is LevelInit
    &&& forall|i: int| 0 <= i < count ==> spec_is_chunk(#[trigger] packets[1 + i], data, i)
    &&& packets[count + 1] matches ServerPacket::LevelFinalise(done) && done.x_size == dims.x
        && done.y_size == dims.y && done.z_size == dims.z
}

/// Every chunk but the last carries 1024 level bytes; the last carries
/// what is left, which is the total modulo 1024 unless that is zero.
pub proof fn lemma_chunk_lengths(total: int, i: int)
    requires
        0 <= total,
        0 <= i < spec_chunk_count(total),
    ensures
        i + 1 < spec_chunk_count(total) ==> spec_chunk_length(total, i) == CHUNK_SIZE,
        i + 1 == spec_chunk_count(total) && total % (CHUNK_SIZE as int) != 0 ==> spec_chunk_length(
            total,
            i,
        ) == total % (CHUNK_SIZE as int),
        i + 1 == spec_chunk_count(total) && total % (CHUNK_SIZE as int) == 0 ==> spec_chunk_length(
            total,
            i,
        ) == CHUNK_SIZE,
        1 <= spec_chunk_length(total, i) <= CHUNK_SIZE,
        0 <= spec_chunk_percent(total, i) < 100,
{
    let count = spec_chunk_count(total);
    assert(count == (total + 1023) / 1024);
    assert(i * 1024 < total);
    let sent = i * 1024;
    assert(0 <= sent * 100 / total < 100) by (nonlinear_arith)
        requires
            0 <= sent < total,
    ;
}

/// Chunk `i` of `data` as a packet.
fn chunk_packet(data: &[u8], i: usize) -> (packet: ServerPacket)
    requires
        i < spec_chunk_count(data@.len() as int),
    ensures
        spec_is_chunk(packet, data@, i as int),
{
    let total: usize = data.len();
    proof {
        lemma_chunk_lengths(total as int, i as int);
    }
    let start: usize = i * CHUNK_SIZE;
    let length: usize = if total - start >= CHUNK_SIZE {
        CHUNK_SIZE
    } else {
        total - start
    };
    let mut chunk_data = [0u8; 1024];
    let mut j: usize = 0;
    while j < CHUNK_SIZE
        invariant
            j <= CHUNK_SIZE,
            length <= CHUNK_SIZE,
            start + length == total || length == CHUNK_SIZE,
            start + length <= total == data@.len(),
            start == i * CHUNK_SIZE,
            forall|k: int|
                0 <= k < j ==> chunk_data@[k] == if k < length {
                    data@[start + k]
                } else {
                    0u8
                },
        decreases CHUNK_SIZE - j,
    {
        chunk_data[j] = if j < length {
            data[start + j]
        } else {
            0
        };
        j += 1;
    }
    assert(chunk_data@ =~= spec_chunk_data(data@, i as int));
    let percent: u128 = start as u128 * 100 / total as u128;
    ServerPacket::LevelDataChunk(
        LevelDataChunkPacket {
            chunk_length: length as i16,
            chunk_data,
            percent_complete: percent as u8,
        },
    )
}

/// The packets that transfer the level bytes `data` of a world of
/// dimensions `dims`, in the order in which they are to be sent.
///
/// Fails with `TooLarge` exactly when a dimension does not fit the signed
/// 16-bit field of the closing packet.
pub fn level_packets(data: &[u8], dims: Coords) -> (packets: Result<Vec<ServerPacket>, WorldError>)
    ensures
        match packets {
            Ok(packets) => spec_header_fits(dims) && spec_is_level_transfer(packets@, data@, dims),
            Err(e) => !spec_header_fits(dims) && e == WorldError::TooLarge,
        },
{
    if dims.x > i16::MAX as u32 || dims.y > i16::MAX as u32 || dims.z > i16::MAX as u32 {
        return Err(WorldError::TooLarge);
    }
    let total: usize = data.len();
    let count: usize = total / CHUNK_SIZE + if total % CHUNK_SIZE == 0 {
        0
    } else {
        1
    };
    assert(count == spec_chunk_count(total as int));
    let mut packets: Vec<ServerPacket> = Vec::new();
    packets.push(ServerPacket::LevelInit(LevelInitPacket));
    let mut i: usize = 0;
    while i < count
        invariant
            i <= count == spec_chunk_count(data@.len() as int),
            packets@.len() == 1 + i,
            packets@[0] is LevelInit,
            forall|k: int| 0 <= k < i ==> spec_is_chunk(#[trigger] packets@[1 + k], data@, k),
        decreases count - i,
    {
        let packet = chunk_packet(data, i);
        packets.push(packet);
        i += 1;
    }
    packets.push(
        ServerPacket::LevelFinalise(
            LevelFinalisePacket {
                x_size: dims.x as i16,
                y_size: dims.y as i16,
                z_size: dims.z as i16,
            },
        ),
    );
    Ok(packets)
}

/// What sending `world` comes to: the level transfer of its compressed
/// payload, or the reason why there is none.
pub open spec fn spec_send_world(world: BlockWorld, packets: Result<Vec<ServerPacket>, WorldError>)
    -> bool {
    match spec_serialise(world@.blocks) {
        Err(e) => packets == Err::<Vec<ServerPacket>, WorldError>(e),
        Ok(data) => match packets {
            Ok(packets) => spec_header_fits(world@.dimensions) && spec_is_level_transfer(
                packets@,
                data,
                world@.dimensions,
            ),
            Err(e) => !spec_header_fits(world@.dimensions) && e == WorldError::TooLarge,
        },
    }
}

/// The packets that send `world` to a client: the announcement, the
/// compressed level in chunks, and the dimensions.
pub fn send_world(world: &BlockWorld) -> (packets: Result<Vec<ServerPacket>, WorldError>)
    ensures
        spec_send_world(*world, packets),
{
    let serialised = match world.serialise() {
        Ok(serialised) => serialised,
        Err(e) => {
            return Err(e);
        },
    };
    level_packets(serialised.as_slice(), world.dims())
}

} // verus!
