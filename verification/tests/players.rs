use vintage::networking::level::{level_packets, send_world, CHUNK_SIZE};
use vintage::networking::movement::{is_teleport, player_move_packet};
use vintage::networking::s2c::{
    PlayerOriUpdatePacket, PlayerPosOriUpdatePacket, PlayerPosUpdatePacket, PlayerTeleportPacket,
};
use vintage::networking::server_packet::ServerPacket;
use vintage::networking::{FByte, FShort};
use vintage::player::{PlayerIdAllocator, Position, Rotation, ServerFull};
use vintage::saver::{add_periodic_saver, tick_handler, WorldSaver, DEFAULT_SAVE_INTERVAL};
use vintage::world::{BlockWorld, Coords, WorldError};

fn pos(x: i16, y: i16, z: i16) -> Position {
    Position { x: FShort(x), y: FShort(y), z: FShort(z) }
}

fn rot(pitch: u8, yaw: u8) -> Rotation {
    Rotation { pitch, yaw }
}

#[test]
fn new_table_is_empty() {
    let table = PlayerIdAllocator::new_empty();
    for id in 0..=126i8 {
        assert_eq!(table.get_entity_id(id), None);
    }
    assert_eq!(table.get_player_id(0), None);
}

#[test]
fn allocate_gives_the_lowest_free_identifier() {
    let mut table = PlayerIdAllocator::new_empty();
    assert_eq!(table.allocate(100), Ok(0));
    assert_eq!(table.allocate(200), Ok(1));
    assert_eq!(table.allocate(300), Ok(2));
    table.free(1);
    assert_eq!(table.allocate(400), Ok(1));
    assert_eq!(table.allocate(500), Ok(3));
    table.free(0);
    table.free(2);
    assert_eq!(table.allocate(600), Ok(0));
    assert_eq!(table.allocate(700), Ok(2));
}

#[test]
fn lookups_are_inverse_to_each_other() {
    let mut table = PlayerIdAllocator::new_empty();
    for handle in 0..127u64 {
        table.allocate(1000 + handle).unwrap();
    }
    for id in 0..=126i8 {
        let handle = table.get_entity_id(id).unwrap();
        assert_eq!(handle, 1000 + id as u64);
        assert_eq!(table.get_player_id(handle), Some(id));
    }
    table.free(60);
    assert_eq!(table.get_entity_id(60), None);
    assert_eq!(table.get_player_id(1060), None);
    for id in (0..=126i8).filter(|id| *id != 60) {
        assert_eq!(table.get_entity_id(id).and_then(|h| table.get_player_id(h)), Some(id));
    }
}

#[test]
fn the_128th_allocation_finds_the_server_full() {
    let mut table = PlayerIdAllocator::new_empty();
    for handle in 0..127u64 {
        assert_eq!(table.allocate(handle), Ok(handle as i8));
    }
    assert_eq!(table.allocate(127), Err(ServerFull));
    assert_eq!(table.get_player_id(127), None);
    assert_eq!(table.get_entity_id(126), Some(126));
    table.free(126);
    assert_eq!(table.allocate(127), Ok(126));
}

#[test]
fn free_is_idempotent_and_ignores_what_is_no_identifier() {
    let mut table = PlayerIdAllocator::new_empty();
    table.allocate(7).unwrap();
    table.allocate(8).unwrap();
    table.free(0);
    table.free(0);
    table.free(-1);
    table.free(127);
    table.free(i8::MIN);
    assert_eq!(table.get_entity_id(0), None);
    assert_eq!(table.get_entity_id(1), Some(8));
    assert_eq!(table.get_player_id(8), Some(1));
}

#[test]
fn lookups_outside_the_table_find_nothing() {
    let mut table = PlayerIdAllocator::new_empty();
    table.allocate(1).unwrap();
    assert_eq!(table.get_entity_id(-1), None);
    assert_eq!(table.get_entity_id(127), None);
    assert_eq!(table.get_entity_id(i8::MIN), None);
}

#[test]
fn a_move_of_exactly_three_blocks_is_a_teleport() {
    // 3 blocks are 96 fixed-point units
    assert!(is_teleport(pos(0, 0, 0), pos(96, 0, 0), 3));
    assert!(is_teleport(pos(10, 20, 30), pos(10, 20, -66), 3));
    assert!(!is_teleport(pos(0, 0, 0), pos(95, 0, 0), 3));
    let packet = player_move_packet(pos(0, 0, 0), pos(96, 0, 0), rot(0, 0), rot(0, 0), 3, 4);
    match packet {
        Some(ServerPacket::PlayerTeleport(p)) => {
            assert_eq!(
                p,
                PlayerTeleportPacket {
                    player_id: 4,
                    x: FShort(96),
                    y: FShort(0),
                    z: FShort(0),
                    yaw: 0,
                    pitch: 0,
                }
            );
        }
        other => panic!("expected a teleport, got {:?}", other),
    }
}

#[test]
fn the_distance_is_taken_over_all_three_axes() {
    // 64² + 64² + 32² = 9216 = 96²
    assert!(is_teleport(pos(0, 0, 0), pos(64, 64, 32), 3));
    assert!(!is_teleport(pos(0, 0, 0), pos(64, 64, 31), 3));
    assert!(is_teleport(pos(i16::MIN, i16::MIN, i16::MIN), pos(i16::MAX, i16::MAX, i16::MAX), 3));
    assert!(is_teleport(pos(0, 0, 0), pos(0, 0, 0), 0));
    assert!(!is_teleport(pos(0, 0, 0), pos(31, 0, 0), 1));
    assert!(is_teleport(pos(0, 0, 0), pos(32, 0, 0), 1));
}

#[test]
fn no_change_sends_no_packet() {
    assert!(player_move_packet(pos(5, 6, 7), pos(5, 6, 7), rot(1, 2), rot(1, 2), 3, 0).is_none());
}

#[test]
fn a_turn_alone_is_an_orientation_update() {
    let packet = player_move_packet(pos(5, 6, 7), pos(5, 6, 7), rot(1, 2), rot(1, 3), 3, 9);
    match packet {
        Some(ServerPacket::PlayerOriUpdate(p)) => {
            assert_eq!(p, PlayerOriUpdatePacket { player_id: 9, yaw: 3, pitch: 1 });
        }
        other => panic!("expected an orientation update, got {:?}", other),
    }
}

#[test]
fn a_small_step_alone_is_a_position_update() {
    let packet = player_move_packet(pos(5, 6, 7), pos(15, 0, 7), rot(1, 2), rot(1, 2), 3, 9);
    match packet {
        Some(ServerPacket::PlayerPosUpdate(p)) => {
            assert_eq!(
                p,
                PlayerPosUpdatePacket {
                    player_id: 9,
                    delta_x: FByte(10),
                    delta_y: FByte(-6),
                    delta_z: FByte(0),
                }
            );
        }
        other => panic!("expected a position update, got {:?}", other),
    }
}

#[test]
fn a_small_step_with_a_turn_is_a_combined_update() {
    let packet = player_move_packet(pos(0, 0, 0), pos(-95, 1, 2), rot(0, 0), rot(200, 100), 3, 1);
    match packet {
        Some(ServerPacket::PlayerPosOriUpdate(p)) => {
            assert_eq!(
                p,
                PlayerPosOriUpdatePacket {
                    player_id: 1,
                    delta_x: FByte(-95),
                    delta_y: FByte(1),
                    delta_z: FByte(2),
                    yaw: 100,
                    pitch: 200,
                }
            );
        }
        other => panic!("expected a combined update, got {:?}", other),
    }
}

#[test]
fn a_step_too_long_for_one_byte_is_cut_under_a_wide_threshold() {
    let packet =
        player_move_packet(pos(0, 0, 0), pos(300, -300, 127), rot(0, 0), rot(0, 0), 100, 1);
    match packet {
        Some(ServerPacket::PlayerPosUpdate(p)) => {
            assert_eq!(p.delta_x, FByte(127));
            assert_eq!(p.delta_y, FByte(-128));
            assert_eq!(p.delta_z, FByte(127));
        }
        other => panic!("expected a position update, got {:?}", other),
    }
}

fn chunk(packet: &ServerPacket) -> (i16, Vec<u8>, u8) {
    match packet {
        ServerPacket::LevelDataChunk(c) => {
            (c.chunk_length, c.chunk_data.to_vec(), c.percent_complete)
        }
        other => panic!("expected a chunk, got {:?}", other),
    }
}

#[test]
fn level_is_cut_into_chunks_of_1024() {
    let data: Vec<u8> = (0..2500u32).map(|i| (i % 251) as u8).collect();
    let packets = level_packets(&data, Coords { x: 128, y: 64, z: 128 }).unwrap();
    assert_eq!(CHUNK_SIZE, 1024);
    assert_eq!(packets.len(), 1 + 3 + 1);
    assert!(matches!(packets[0], ServerPacket::LevelInit(_)));

    let (len, bytes, percent) = chunk(&packets[1]);
    assert_eq!(len, 1024);
    assert_eq!(bytes, data[..1024].to_vec());
    assert_eq!(percent, 0);

    let (len, bytes, percent) = chunk(&packets[2]);
    assert_eq!(len, 1024);
    assert_eq!(bytes, data[1024..2048].to_vec());
    assert_eq!(percent, 40); // 1024 * 100 / 2500

    let (len, bytes, percent) = chunk(&packets[3]);
    assert_eq!(len, 452); // 2500 mod 1024
    assert_eq!(&bytes[..452], &data[2048..]);
    assert_eq!(&bytes[452..], &vec![0u8; 1024 - 452][..]);
    assert_eq!(percent, 81); // 2048 * 100 / 2500

    match &packets[4] {
        ServerPacket::LevelFinalise(done) => {
            assert_eq!((done.x_size, done.y_size, done.z_size), (128, 64, 128));
        }
        other => panic!("expected the closing packet, got {:?}", other),
    }
}

#[test]
fn a_level_of_whole_chunks_has_a_full_last_chunk() {
    let data = vec![1u8; 2048];
    let packets = level_packets(&data, Coords { x: 1, y: 1, z: 1 }).unwrap();
    assert_eq!(packets.len(), 4);
    assert_eq!(chunk(&packets[1]).0, 1024);
    assert_eq!(chunk(&packets[2]).0, 1024);
    assert_eq!(chunk(&packets[2]).2, 50);
}

#[test]
fn an_empty_level_has_no_chunks() {
    let packets = level_packets(&[], Coords { x: 0, y: 0, z: 0 }).unwrap();
    assert_eq!(packets.len(), 2);
    assert!(matches!(packets[0], ServerPacket::LevelInit(_)));
    assert!(matches!(packets[1], ServerPacket::LevelFinalise(_)));
}

#[test]
fn a_level_with_a_dimension_beyond_sixteen_bits_cannot_be_sent() {
    let result = level_packets(&[1, 2, 3], Coords { x: 32768, y: 1, z: 1 });
    assert_eq!(result.unwrap_err(), WorldError::TooLarge);
    assert!(level_packets(&[1, 2, 3], Coords { x: 32767, y: 32767, z: 32767 }).is_ok());
}

#[test]
fn send_world_carries_the_serialised_world() {
    let world = BlockWorld::new_air(Coords { x: 16, y: 8, z: 16 });
    let packets = send_world(&world).unwrap();
    let serialised = world.serialise().unwrap();
    let mut sent = Vec::new();
    for packet in &packets[1..packets.len() - 1] {
        let (len, bytes, _) = chunk(packet);
        sent.extend_from_slice(&bytes[..len as usize]);
    }
    assert_eq!(sent, serialised);
    let reread = BlockWorld::deserialise(&sent, world.dims()).unwrap();
    assert_eq!(reread.block_count(), 16 * 8 * 16);
}

#[test]
fn saver_is_due_when_the_interval_has_passed() {
    let world = BlockWorld::new_air(Coords { x: 2, y: 2, z: 2 });
    let mut saver = add_periodic_saver(DEFAULT_SAVE_INTERVAL, 1000);
    assert_eq!(saver, WorldSaver { interval: 60, last_save: 1000 });
    assert!(tick_handler(&mut saver, &world, 1000).is_none());
    assert!(tick_handler(&mut saver, &world, 1059).is_none());
    assert_eq!(saver.last_save, 1000);
    let file = tick_handler(&mut saver, &world, 1060).unwrap().unwrap();
    assert_eq!(saver.last_save, 1060);
    assert_eq!(file, world.to_file_bytes().unwrap());
    assert!(tick_handler(&mut saver, &world, 1061).is_none());
    assert!(tick_handler(&mut saver, &world, 1119).is_none());
    assert!(tick_handler(&mut saver, &world, 1500).is_some());
    assert_eq!(saver.last_save, 1500);
}

#[test]
fn saver_waits_while_the_clock_is_behind() {
    let world = BlockWorld::new_air(Coords { x: 1, y: 1, z: 1 });
    let mut saver = add_periodic_saver(0, 50);
    assert!(tick_handler(&mut saver, &world, 49).is_none());
    assert_eq!(saver.last_save, 50);
    assert!(tick_handler(&mut saver, &world, 50).is_some());
}

#[test]
fn saver_reports_a_world_that_cannot_be_written() {
    let world = BlockWorld::new_air(Coords { x: 40_000, y: 1, z: 1 });
    let mut saver = add_periodic_saver(1, 0);
    assert_eq!(tick_handler(&mut saver, &world, 5), Some(Err(WorldError::TooLarge)));
    // the save stays due and is tried again with the next tick
    assert_eq!(saver.last_save, 0);
    assert_eq!(tick_handler(&mut saver, &world, 6), Some(Err(WorldError::TooLarge)));
}
