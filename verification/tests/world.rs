use flate2::read::GzDecoder;
use std::io::Read;
use vintage::block::Block;
use vintage::world::{BlockWorld, Coords, WorldError};

fn coords(x: u32, y: u32, z: u32) -> Coords {
    Coords { x, y, z }
}

fn gunzip(data: &[u8]) -> Vec<u8> {
    let mut out = Vec::new();
    GzDecoder::new(data).read_to_end(&mut out).unwrap();
    out
}

fn sample_world() -> BlockWorld {
    let mut world = BlockWorld::new_air(coords(4, 3, 4));
    world.set_block(coords(0, 0, 0), Block::Bedrock);
    world.set_block(coords(1, 0, 0), Block::Stone);
    world.set_block(coords(3, 2, 3), Block::Obsidian);
    world.set_block(coords(2, 1, 1), Block::GrassBlock);
    world
}

fn same_world(a: &BlockWorld, b: &BlockWorld) -> bool {
    a.dims() == b.dims() && a.to_payload().unwrap() == b.to_payload().unwrap()
}

#[test]
fn block_identifiers_are_positions_in_the_list() {
    assert_eq!(Block::Air.id(), 0);
    assert_eq!(Block::Stone.id(), 1);
    assert_eq!(Block::GrassBlock.id(), 2);
    assert_eq!(Block::Dirt.id(), 3);
    assert_eq!(Block::Bedrock.id(), 7);
    assert_eq!(Block::TNT.id(), 46);
    assert_eq!(Block::Obsidian.id(), 49);
}

#[test]
fn block_from_u8_round_trips_for_every_identifier() {
    for id in 0u8..50 {
        let block = Block::from_u8(id).unwrap();
        assert_eq!(block.id(), id);
    }
    assert_eq!(Block::from_u8(0), Some(Block::Air));
    assert_eq!(Block::from_u8(49), Some(Block::Obsidian));
}

#[test]
fn block_from_u8_rejects_fifty_and_above() {
    assert_eq!(Block::from_u8(50), None);
    assert_eq!(Block::from_u8(51), None);
    assert_eq!(Block::from_u8(255), None);
}

#[test]
fn checked_volume_multiplies_the_dimensions() {
    assert_eq!(coords(128, 64, 128).checked_volume(), Some(1_048_576));
    assert_eq!(coords(0, 64, 128).checked_volume(), Some(0));
    assert_eq!(coords(1, 1, 1).checked_volume(), Some(1));
}

#[test]
fn checked_volume_reports_what_does_not_fit() {
    let huge = coords(u32::MAX, u32::MAX, u32::MAX);
    assert_eq!(huge.checked_volume(), None);
}

#[test]
fn new_world_is_air_and_has_one_block_per_cell() {
    let world = BlockWorld::new_air(coords(5, 7, 5));
    assert_eq!(world.dims(), coords(5, 7, 5));
    assert_eq!(world.block_count(), 5 * 7 * 5);
    for x in 0..5 {
        for y in 0..7 {
            for z in 0..5 {
                assert_eq!(world.get_block(coords(x, y, z)), Block::Air);
            }
        }
    }
}

#[test]
fn block_count_stays_the_product_of_the_dimensions() {
    let mut world = BlockWorld::new_air(coords(3, 2, 3));
    assert_eq!(world.block_count(), 18);
    world.set_block(coords(2, 1, 2), Block::Sand);
    world.set_block(coords(0, 0, 0), Block::Gravel);
    assert_eq!(world.block_count(), 18);
    let reread = BlockWorld::deserialise(&world.serialise().unwrap(), world.dims()).unwrap();
    assert_eq!(reread.block_count(), 18);
}

#[test]
fn set_block_changes_one_block_only() {
    let mut world = BlockWorld::new_air(coords(4, 4, 4));
    world.set_block(coords(1, 2, 3), Block::Glass);
    for x in 0..4 {
        for y in 0..4 {
            for z in 0..4 {
                let expected = if (x, y, z) == (1, 2, 3) { Block::Glass } else { Block::Air };
                assert_eq!(world.get_block(coords(x, y, z)), expected);
            }
        }
    }
}

#[test]
fn blocks_are_stored_in_index_order() {
    // index = x + z * Z + y * X * Z, here with X = Z = 4
    let mut world = BlockWorld::new_air(coords(4, 3, 4));
    world.set_block(coords(1, 0, 0), Block::Stone);
    world.set_block(coords(0, 0, 1), Block::Dirt);
    world.set_block(coords(0, 1, 0), Block::Sand);
    world.set_block(coords(3, 2, 3), Block::Obsidian);
    let payload = world.to_payload().unwrap();
    assert_eq!(payload.len(), 4 + 48);
    assert_eq!(payload[4 + 1], Block::Stone.id());
    assert_eq!(payload[4 + 4], Block::Dirt.id());
    assert_eq!(payload[4 + 16], Block::Sand.id());
    assert_eq!(payload[4 + 3 + 12 + 32], Block::Obsidian.id());
}

#[test]
fn has_block_accepts_the_far_corner_and_rejects_what_lies_outside() {
    let world = BlockWorld::new_air(coords(128, 64, 128));
    assert!(world.has_block(coords(127, 63, 127)));
    assert!(world.has_block(coords(0, 0, 0)));
    assert!(!world.has_block(coords(128, 0, 0)));
    assert!(!world.has_block(coords(0, 64, 0)));
    assert!(!world.has_block(coords(0, 0, 128)));
    assert!(!world.has_block(coords(u32::MAX, u32::MAX, u32::MAX)));
}

#[test]
fn has_block_follows_the_index_in_a_world_deeper_than_wide() {
    // X = 1, Z = 3: the index of (0, 0, 2) is 0 + 2 * 3 = 6, beyond the 3 blocks of one layer
    let world = BlockWorld::new_air(coords(1, 1, 3));
    assert!(world.has_block(coords(0, 0, 0)));
    assert!(!world.has_block(coords(0, 0, 1)));
    assert!(!world.has_block(coords(0, 0, 2)));
}

#[test]
fn payload_is_count_then_block_bytes() {
    let mut world = BlockWorld::new_air(coords(2, 1, 2));
    world.set_block(coords(1, 0, 1), Block::Bricks);
    let payload = world.to_payload().unwrap();
    assert_eq!(payload, vec![0, 0, 0, 4, 0, 0, 0, 45]);
}

#[test]
fn payload_round_trip() {
    let world = sample_world();
    let payload = world.to_payload().unwrap();
    let reread = BlockWorld::from_payload(&payload, world.dims()).unwrap();
    assert!(same_world(&world, &reread));
    assert_eq!(reread.get_block(coords(3, 2, 3)), Block::Obsidian);
}

#[test]
fn from_payload_reports_a_short_header() {
    assert_eq!(
        BlockWorld::from_payload(&[0, 0, 0], coords(1, 1, 1)).unwrap_err(),
        WorldError::ShortRead
    );
    assert_eq!(
        BlockWorld::from_payload(&[], coords(0, 0, 0)).unwrap_err(),
        WorldError::ShortRead
    );
}

#[test]
fn from_payload_reports_a_count_that_is_not_the_volume() {
    assert_eq!(
        BlockWorld::from_payload(&[0, 0, 0, 3, 0, 0, 0], coords(2, 1, 2)).unwrap_err(),
        WorldError::CountMismatch
    );
    assert_eq!(
        BlockWorld::from_payload(&[0xff, 0xff, 0xff, 0xff], coords(1, 1, 1)).unwrap_err(),
        WorldError::CountMismatch
    );
}

#[test]
fn from_payload_reports_missing_blocks() {
    assert_eq!(
        BlockWorld::from_payload(&[0, 0, 0, 4, 1, 1, 1], coords(2, 1, 2)).unwrap_err(),
        WorldError::ShortRead
    );
}

#[test]
fn from_payload_reports_trailing_bytes() {
    assert_eq!(
        BlockWorld::from_payload(&[0, 0, 0, 4, 1, 1, 1, 1, 1], coords(2, 1, 2)).unwrap_err(),
        WorldError::TrailingBytes
    );
}

#[test]
fn from_payload_reports_a_byte_that_names_no_block() {
    assert_eq!(
        BlockWorld::from_payload(&[0, 0, 0, 4, 1, 1, 50, 1], coords(2, 1, 2)).unwrap_err(),
        WorldError::InvalidBlock
    );
}

#[test]
fn serialise_is_the_gzipped_payload() {
    let world = sample_world();
    let data = world.serialise().unwrap();
    assert_eq!(&data[..2], &[0x1f, 0x8b]);
    assert_ne!(data, world.to_payload().unwrap());
    assert_eq!(gunzip(&data), world.to_payload().unwrap());
}

#[test]
fn serialise_round_trip() {
    let world = sample_world();
    let data = world.serialise().unwrap();
    let reread = BlockWorld::deserialise(&data, world.dims()).unwrap();
    assert!(same_world(&world, &reread));
}

#[test]
fn serialise_round_trip_of_a_large_world() {
    let mut world = BlockWorld::new_air(coords(128, 64, 128));
    for x in 0..128 {
        for z in 0..128 {
            world.set_block(coords(x, 32, z), Block::GrassBlock);
        }
    }
    let data = world.serialise().unwrap();
    let reread = BlockWorld::deserialise(&data, world.dims()).unwrap();
    assert!(same_world(&world, &reread));
    assert_eq!(reread.get_block(coords(5, 32, 9)), Block::GrassBlock);
    assert_eq!(reread.get_block(coords(5, 33, 9)), Block::Air);
}

#[test]
fn deserialise_reports_what_is_not_gzip() {
    assert_eq!(
        BlockWorld::deserialise(&[1, 2, 3, 4, 5], coords(1, 1, 1)).unwrap_err(),
        WorldError::Corrupt
    );
    assert_eq!(BlockWorld::deserialise(&[], coords(1, 1, 1)).unwrap_err(), WorldError::Corrupt);
}

#[test]
fn deserialise_reports_a_damaged_stream() {
    let world = sample_world();
    let mut data = world.serialise().unwrap();
    let last = data.len() - 5;
    data[last] ^= 0xff;
    assert_eq!(BlockWorld::deserialise(&data, world.dims()).unwrap_err(), WorldError::Corrupt);
    let whole = world.serialise().unwrap();
    assert_eq!(
        BlockWorld::deserialise(&whole[..whole.len() - 3], world.dims()).unwrap_err(),
        WorldError::Corrupt
    );
}

#[test]
fn deserialise_reports_other_dimensions() {
    let world = sample_world();
    let data = world.serialise().unwrap();
    assert_eq!(
        BlockWorld::deserialise(&data, coords(4, 4, 4)).unwrap_err(),
        WorldError::CountMismatch
    );
}

#[test]
fn file_starts_with_the_dimensions() {
    let world = BlockWorld::new_air(coords(258, 3, 4));
    let file = world.to_file_bytes().unwrap();
    assert_eq!(&file[..6], &[1, 2, 0, 3, 0, 4]);
    assert_eq!(&file[6..], &world.serialise().unwrap()[..]);
}

#[test]
fn file_round_trip() {
    let world = sample_world();
    let file = world.to_file_bytes().unwrap();
    let reread = BlockWorld::from_file_bytes(&file).unwrap();
    assert!(same_world(&world, &reread));
    assert_eq!(reread.dims(), coords(4, 3, 4));
}

#[test]
fn file_with_a_dimension_beyond_sixteen_bits_is_too_large() {
    let world = BlockWorld::new_air(coords(40_000, 1, 1));
    assert_eq!(world.to_file_bytes().unwrap_err(), WorldError::TooLarge);
}

#[test]
fn file_that_is_too_short_is_a_short_read() {
    assert_eq!(BlockWorld::from_file_bytes(&[0, 1, 0, 1, 0]).unwrap_err(), WorldError::ShortRead);
}

#[test]
fn file_with_a_negative_dimension_is_refused() {
    let world = BlockWorld::new_air(coords(1, 1, 1));
    let mut file = world.to_file_bytes().unwrap();
    file[0] = 0xff;
    assert_eq!(BlockWorld::from_file_bytes(&file).unwrap_err(), WorldError::InvalidDimensions);
}

#[test]
fn file_with_changed_dimensions_is_a_count_mismatch() {
    let world = sample_world();
    let mut file = world.to_file_bytes().unwrap();
    file[1] = 5;
    assert_eq!(BlockWorld::from_file_bytes(&file).unwrap_err(), WorldError::CountMismatch);
}

fn floor_of_stone(dims: Coords, mut world: BlockWorld) -> BlockWorld {
    for x in 0..dims.x {
        for z in 0..dims.z {
            world.set_block(coords(x, 0, z), Block::Stone);
        }
    }
    world
}

#[test]
fn new_hands_an_air_world_to_the_generator_once() {
    let mut calls = 0;
    let world = BlockWorld::new(coords(3, 2, 3), |dims, world| {
        calls += 1;
        assert_eq!(dims, coords(3, 2, 3));
        assert_eq!(world.dims(), coords(3, 2, 3));
        assert_eq!(world.to_payload().unwrap()[4..], vec![0u8; 18][..]);
        floor_of_stone(dims, world)
    });
    assert_eq!(calls, 1);
    assert_eq!(world.block_count(), 18);
    assert_eq!(world.get_block(coords(2, 0, 2)), Block::Stone);
    assert_eq!(world.get_block(coords(2, 1, 2)), Block::Air);
}

#[test]
fn load_or_new_loads_a_good_file() {
    let world = sample_world();
    let file = world.to_file_bytes().unwrap();
    let mut generated = false;
    let (loaded, was_loaded) = BlockWorld::load_or_new(Some(&file), coords(9, 9, 9), |_, w| {
        generated = true;
        w
    });
    assert!(was_loaded);
    assert!(!generated);
    assert!(same_world(&world, &loaded));
}

#[test]
fn load_or_new_falls_back_on_a_missing_or_bad_file() {
    let (fresh, was_loaded) = BlockWorld::load_or_new(None, coords(2, 2, 2), floor_of_stone);
    assert!(!was_loaded);
    assert_eq!(fresh.dims(), coords(2, 2, 2));
    assert_eq!(fresh.block_count(), 8);
    assert_eq!(fresh.get_block(coords(1, 0, 1)), Block::Stone);
    let (fresh, was_loaded) =
        BlockWorld::load_or_new(Some(&[1, 2, 3]), coords(2, 3, 2), floor_of_stone);
    assert!(!was_loaded);
    assert_eq!(fresh.dims(), coords(2, 3, 2));
    assert_eq!(fresh.get_block(coords(1, 2, 1)), Block::Air);
    assert_eq!(fresh.get_block(coords(0, 0, 0)), Block::Stone);
}
