use vintage::actor::{Action, C2SPacket, ClientInfo, PlayerSpawnLocation, WorldActor};
use vintage::block::Block;
use vintage::event::{PlayerDisconnectEvent, PlayerMessageEvent, PlayerMoveEvent, SetBlockEvent};
use vintage::networking::c2s::{MessagePacket, PlayerIdentPacket, PositionPacket, SetBlockPacket};
use vintage::networking::client_packet::ClientPacket;
use vintage::networking::server_packet::ServerPacket;
use vintage::networking::{FByte, FShort, PacketString};
use vintage::player::{Position, Rotation};
use vintage::world::{BlockWorld, Coords};

fn spawn() -> PlayerSpawnLocation {
    // 16, 34 and 16 blocks, in thirty-seconds of a block
    PlayerSpawnLocation {
        position: Position { x: FShort(512), y: FShort(1088), z: FShort(512) },
        pitch: 0,
        yaw: 0,
    }
}

fn new_actor(x: u32, y: u32, z: u32) -> WorldActor {
    WorldActor::new(BlockWorld::new_air(Coords { x, y, z }), spawn())
}

fn ident(name: &str, version: u8) -> ClientPacket {
    ClientPacket::PlayerIdent(PlayerIdentPacket {
        protocol_version: version,
        username: PacketString::from_str(name).unwrap(),
        verification_key: PacketString::from_str("x").unwrap(),
        padding: 0,
    })
}

fn join(actor: &mut WorldActor, addr: u64, name: &str) -> (ClientInfo, Vec<Action>) {
    let mut info = ClientInfo { addr, player_id: None };
    let actions = ident(name, 7).exec(actor, &mut info);
    (info, actions)
}

fn position(x: i16, y: i16, z: i16, yaw: u8, pitch: u8) -> ClientPacket {
    ClientPacket::Position(PositionPacket {
        player_id: -1,
        x: FShort(x),
        y: FShort(y),
        z: FShort(z),
        yaw,
        pitch,
    })
}

fn name_of(field: &PacketString) -> String {
    field.to_string()
}

fn unicast(action: &Action, to: u64) -> ServerPacket {
    match action {
        Action::Unicast(handle, packet) if *handle == to => *packet,
        other => panic!("expected a packet for session {}, got {:?}", to, other),
    }
}

fn broadcast(action: &Action) -> ServerPacket {
    match action {
        Action::Broadcast(packet) => *packet,
        other => panic!("expected a broadcast, got {:?}", other),
    }
}

fn assert_spawn(packet: ServerPacket, id: i8, name: &str, at: Position, yaw: u8, pitch: u8) {
    match packet {
        ServerPacket::SpawnPlayer(p) => {
            assert_eq!(p.player_id, id);
            assert_eq!(name_of(&p.player_name), name);
            assert_eq!((p.x, p.y, p.z), (at.x, at.y, at.z));
            assert_eq!((p.yaw, p.pitch), (yaw, pitch));
        }
        other => panic!("expected a spawn, got {:?}", other),
    }
}

#[test]
fn join_and_receive_own_spawn() {
    let mut actor = new_actor(16, 8, 16);
    let (info, actions) = join(&mut actor, 1, "Alice");
    let me = info.player_id.unwrap();
    assert_eq!(me, 0);

    match unicast(&actions[0], me) {
        ServerPacket::ServerIdent(p) => {
            assert_eq!(p.protocol_version, 7);
            assert_eq!(name_of(&p.server_name), "vintage");
            assert_eq!(name_of(&p.server_motd), "Vintage server");
            assert_eq!(p.user_type, 0x64);
        }
        other => panic!("expected the server's identification, got {:?}", other),
    }
    assert!(matches!(unicast(&actions[1], me), ServerPacket::LevelInit(_)));

    let mut level = Vec::new();
    let mut next = 2;
    while let ServerPacket::LevelDataChunk(chunk) = unicast(&actions[next], me) {
        level.extend_from_slice(&chunk.chunk_data[..chunk.chunk_length as usize]);
        next += 1;
    }
    assert!(next > 2);
    assert_eq!(level, actor.world().serialise().unwrap());

    match unicast(&actions[next], me) {
        ServerPacket::LevelFinalise(p) => assert_eq!((p.x_size, p.y_size, p.z_size), (16, 8, 16)),
        other => panic!("expected the closing packet, got {:?}", other),
    }
    match unicast(&actions[next + 1], me) {
        ServerPacket::PlayerTeleport(p) => {
            assert_eq!(p.player_id, -1);
            assert_eq!((p.x, p.y, p.z), (FShort(512), FShort(1088), FShort(512)));
            assert_eq!((p.yaw, p.pitch), (0, 0));
        }
        other => panic!("expected a teleport, got {:?}", other),
    }
    assert_spawn(unicast(&actions[next + 2], me), -1, "Alice", spawn().position, 0, 0);
    assert_spawn(broadcast(&actions[next + 3]), 0, "Alice", spawn().position, 0, 0);
    assert_eq!(actions.len(), next + 4);

    assert_eq!(actor.session_count(), 1);
    let session = actor.session(0);
    assert_eq!(session.handle, me);
    assert_eq!(session.connection.addr, 1);
    assert_eq!(session.player.name, "Alice");
    assert_eq!(session.player.id, 0);
    assert_eq!(session.position, spawn().position);
    assert_eq!(session.rotation, Rotation { pitch: 0, yaw: 0 });
    assert_eq!(actor.ids().get_entity_id(0), Some(me));
}

#[test]
fn second_client_sees_first() {
    let mut actor = new_actor(8, 8, 8);
    let (alice, _) = join(&mut actor, 1, "Alice");
    // Alice walks away from the spawn location before Bob arrives
    let mut alice = alice;
    position(100, 200, 300, 40, 50).exec(&mut actor, &mut alice);

    let (bob, actions) = join(&mut actor, 2, "Bob");
    let bob_handle = bob.player_id.unwrap();
    assert_ne!(bob_handle, alice.player_id.unwrap());
    let n = actions.len();
    // all but the last go to Bob; the last but one shows Alice where she stands now
    for action in &actions[..n - 1] {
        unicast(action, bob_handle);
    }
    assert_spawn(unicast(&actions[n - 3], bob_handle), -1, "Bob", spawn().position, 0, 0);
    assert_spawn(
        unicast(&actions[n - 2], bob_handle),
        0,
        "Alice",
        Position { x: FShort(100), y: FShort(200), z: FShort(300) },
        40,
        50,
    );
    // everybody, Alice among them, is shown Bob under the identifier he was given
    assert_spawn(broadcast(&actions[n - 1]), 1, "Bob", spawn().position, 0, 0);
    assert_eq!(actor.session_count(), 2);
    assert_eq!(actor.session(1).player.id, 1);
}

#[test]
fn a_client_with_an_old_protocol_version_still_joins() {
    let mut actor = new_actor(4, 4, 4);
    let mut info = ClientInfo { addr: 9, player_id: None };
    let old = ident("Oldie", 6).exec(&mut actor, &mut info);
    assert!(info.player_id.is_some());
    assert_eq!(actor.session_count(), 1);
    assert_eq!(actor.session(0).player.name, "Oldie");

    let mut reference = new_actor(4, 4, 4);
    let (_, current) = join(&mut reference, 9, "Oldie");
    assert_eq!(format!("{:?}", old), format!("{:?}", current));
    match &ident("Oldie", 6) {
        ClientPacket::PlayerIdent(p) => assert!(p.is_outdated()),
        _ => unreachable!(),
    }
    match &ident("Oldie", 7) {
        ClientPacket::PlayerIdent(p) => assert!(!p.is_outdated()),
        _ => unreachable!(),
    }
}

#[test]
fn the_128th_join_is_turned_away() {
    let mut actor = new_actor(2, 2, 2);
    for i in 0..127u64 {
        let (info, _) = join(&mut actor, i, "player");
        assert_eq!(info.player_id, Some(i));
        assert_eq!(actor.session(i as usize).player.id, i as i8);
    }
    let (info, actions) = join(&mut actor, 127, "late");
    assert_eq!(info.player_id, None);
    assert_eq!(actor.session_count(), 127);
    assert_eq!(actions.len(), 2);
    match &actions[0] {
        Action::Reply(ServerPacket::DisconnectPlayer(p)) => {
            assert_eq!(name_of(&p.disconnect_reason), "Server is full");
        }
        other => panic!("expected a disconnect packet, got {:?}", other),
    }
    assert!(matches!(actions[1], Action::CloseConnection));

    // once somebody leaves, the identifier is free again
    actor.player_disconnect(&PlayerDisconnectEvent(5));
    let (info, _) = join(&mut actor, 128, "later");
    assert!(info.player_id.is_some());
    assert_eq!(actor.session(126).player.id, 5);
}

#[test]
fn a_world_too_large_to_send_turns_the_client_away() {
    let mut actor = new_actor(40_000, 1, 1);
    let (info, actions) = join(&mut actor, 1, "Alice");
    assert_eq!(info.player_id, None);
    assert_eq!(actor.session_count(), 0);
    assert_eq!(actor.ids().get_entity_id(0), None);
    match &actions[0] {
        Action::Reply(ServerPacket::DisconnectPlayer(p)) => {
            assert_eq!(name_of(&p.disconnect_reason), "Level unavailable");
        }
        other => panic!("expected a disconnect packet, got {:?}", other),
    }
    assert!(matches!(actions[1], Action::CloseConnection));
}

#[test]
fn block_placement_fan_out() {
    let mut actor = new_actor(16, 16, 16);
    let (mut alice, _) = join(&mut actor, 1, "Alice");
    let (_bob, _) = join(&mut actor, 2, "Bob");
    let packet =
        ClientPacket::SetBlock(SetBlockPacket { x: 5, y: 10, z: 5, mode: 1, block_type: 1 });
    let actions = packet.exec(&mut actor, &mut alice);
    assert_eq!(actions.len(), 1);
    match broadcast(&actions[0]) {
        ServerPacket::SetBlock(p) => {
            assert_eq!((p.x, p.y, p.z, p.block_type), (5, 10, 5, 1));
        }
        other => panic!("expected a block change, got {:?}", other),
    }
    assert_eq!(actor.world().get_block(Coords { x: 5, y: 10, z: 5 }), Block::Stone);
    assert_eq!(broadcast(&actions[0]).encode(), vec![0x06, 0, 5, 0, 10, 0, 5, 1]);
}

#[test]
fn block_deletion() {
    let mut actor = new_actor(16, 16, 16);
    let (mut alice, _) = join(&mut actor, 1, "Alice");
    let place =
        ClientPacket::SetBlock(SetBlockPacket { x: 5, y: 10, z: 5, mode: 1, block_type: 12 });
    place.exec(&mut actor, &mut alice);
    assert_eq!(actor.world().get_block(Coords { x: 5, y: 10, z: 5 }), Block::Sand);

    let destroy =
        ClientPacket::SetBlock(SetBlockPacket { x: 5, y: 10, z: 5, mode: 0, block_type: 46 });
    let actions = destroy.exec(&mut actor, &mut alice);
    assert_eq!(actions.len(), 1);
    match broadcast(&actions[0]) {
        ServerPacket::SetBlock(p) => assert_eq!((p.x, p.y, p.z, p.block_type), (5, 10, 5, 0)),
        other => panic!("expected a block change, got {:?}", other),
    }
    assert_eq!(actor.world().get_block(Coords { x: 5, y: 10, z: 5 }), Block::Air);
}

#[test]
fn set_block_at_the_far_corner_succeeds_and_just_outside_is_rejected() {
    let mut actor = new_actor(128, 64, 128);
    let far =
        SetBlockEvent { pos: Coords { x: 127, y: 63, z: 127 }, placed: true, block: Block::Glass };
    let actions = actor.set_block(&far);
    assert_eq!(actions.len(), 1);
    assert_eq!(actor.world().get_block(Coords { x: 127, y: 63, z: 127 }), Block::Glass);

    let before = actor.world().to_payload().unwrap();
    let outside =
        SetBlockEvent { pos: Coords { x: 128, y: 0, z: 0 }, placed: true, block: Block::Glass };
    assert!(actor.set_block(&outside).is_empty());
    assert_eq!(actor.world().to_payload().unwrap(), before);
}

#[test]
fn set_block_with_a_negative_coordinate_is_rejected() {
    let mut actor = new_actor(16, 16, 16);
    let (mut alice, _) = join(&mut actor, 1, "Alice");
    let before = actor.world().to_payload().unwrap();
    let packet =
        ClientPacket::SetBlock(SetBlockPacket { x: -1, y: 0, z: 0, mode: 1, block_type: 1 });
    assert!(packet.exec(&mut actor, &mut alice).is_empty());
    assert_eq!(actor.world().to_payload().unwrap(), before);
    match packet {
        ClientPacket::SetBlock(p) => {
            assert_eq!(p.event().unwrap().pos, Coords { x: 0xffff_ffff, y: 0, z: 0 });
        }
        _ => unreachable!(),
    }
}

#[test]
fn set_block_that_names_no_block_is_dropped() {
    let mut actor = new_actor(16, 16, 16);
    let (mut alice, _) = join(&mut actor, 1, "Alice");
    let before = actor.world().to_payload().unwrap();
    let packet =
        ClientPacket::SetBlock(SetBlockPacket { x: 1, y: 1, z: 1, mode: 1, block_type: 50 });
    assert!(packet.exec(&mut actor, &mut alice).is_empty());
    assert_eq!(actor.world().to_payload().unwrap(), before);
}

#[test]
fn rotation_only_movement() {
    let mut actor = new_actor(8, 8, 8);
    let (mut alice, _) = join(&mut actor, 1, "Alice");
    let (bob, _) = join(&mut actor, 2, "Bob");
    let actions = position(512, 1088, 512, 77, 0).exec(&mut actor, &mut alice);
    assert_eq!(actions.len(), 1);
    match unicast(&actions[0], bob.player_id.unwrap()) {
        ServerPacket::PlayerOriUpdate(p) => {
            assert_eq!((p.player_id, p.yaw, p.pitch), (0, 77, 0));
        }
        other => panic!("expected an orientation update, got {:?}", other),
    }
    assert_eq!(actor.session(0).rotation, Rotation { pitch: 0, yaw: 77 });
    assert_eq!(actor.session(0).position, spawn().position);
}

#[test]
fn teleport_threshold() {
    let mut actor = new_actor(8, 8, 8);
    let (mut alice, _) = join(&mut actor, 1, "Alice");
    let (bob, _) = join(&mut actor, 2, "Bob");
    let (carol, _) = join(&mut actor, 3, "Carol");
    // four blocks along x
    let actions = position(512 + 128, 1088, 512, 0, 0).exec(&mut actor, &mut alice);
    assert_eq!(actions.len(), 2);
    for (action, to) in actions.iter().zip([bob, carol]) {
        match unicast(action, to.player_id.unwrap()) {
            ServerPacket::PlayerTeleport(p) => {
                assert_eq!(p.player_id, 0);
                assert_eq!((p.x, p.y, p.z), (FShort(640), FShort(1088), FShort(512)));
            }
            other => panic!("expected a teleport, got {:?}", other),
        }
    }
    assert_eq!(
        actor.session(0).position,
        Position { x: FShort(640), y: FShort(1088), z: FShort(512) }
    );
}

#[test]
fn a_move_of_exactly_the_threshold_teleports() {
    let mut actor = new_actor(8, 8, 8);
    let (mut alice, _) = join(&mut actor, 1, "Alice");
    let (bob, _) = join(&mut actor, 2, "Bob");
    let actions = position(512, 1088 - 96, 512, 0, 0).exec(&mut actor, &mut alice);
    assert!(matches!(
        unicast(&actions[0], bob.player_id.unwrap()),
        ServerPacket::PlayerTeleport(_)
    ));
    // one unit less is a small step
    let actions = position(512, 1088 - 96 + 95, 512, 0, 0).exec(&mut actor, &mut alice);
    match unicast(&actions[0], bob.player_id.unwrap()) {
        ServerPacket::PlayerPosUpdate(p) => {
            assert_eq!(p.player_id, 0);
            assert_eq!((p.delta_x, p.delta_y, p.delta_z), (FByte(0), FByte(95), FByte(0)));
        }
        other => panic!("expected a position update, got {:?}", other),
    }
}

#[test]
fn standing_still_sends_nothing() {
    let mut actor = new_actor(8, 8, 8);
    let (mut alice, _) = join(&mut actor, 1, "Alice");
    let (_bob, _) = join(&mut actor, 2, "Bob");
    assert!(position(512, 1088, 512, 0, 0).exec(&mut actor, &mut alice).is_empty());
    assert!(position(512, 1088, 512, 0, 0).exec(&mut actor, &mut alice).is_empty());
}

#[test]
fn the_mover_is_not_sent_its_own_move() {
    let mut actor = new_actor(8, 8, 8);
    let (mut alice, _) = join(&mut actor, 1, "Alice");
    assert!(position(0, 0, 0, 1, 1).exec(&mut actor, &mut alice).is_empty());
    assert_eq!(actor.session(0).position, Position { x: FShort(0), y: FShort(0), z: FShort(0) });
    assert_eq!(actor.session(0).rotation, Rotation { pitch: 1, yaw: 1 });
}

#[test]
fn packets_of_a_client_that_has_not_joined_are_passed_over() {
    let mut actor = new_actor(8, 8, 8);
    let (_alice, _) = join(&mut actor, 1, "Alice");
    let mut stranger = ClientInfo { addr: 2, player_id: None };
    assert!(position(1, 2, 3, 4, 5).exec(&mut actor, &mut stranger).is_empty());
    let line = ClientPacket::Message(MessagePacket {
        player_id: -1,
        message: PacketString::from_str("hello").unwrap(),
    });
    assert!(line.exec(&mut actor, &mut stranger).is_empty());
    assert_eq!(stranger.player_id, None);
    let unknown = PlayerMoveEvent {
        entity_id: 99,
        pos: Position { x: FShort(0), y: FShort(0), z: FShort(0) },
        rot: Rotation { pitch: 0, yaw: 0 },
    };
    assert!(actor.player_move(&unknown).is_empty());
    assert_eq!(actor.session(0).position, spawn().position);
}

#[test]
fn chat_lines_carry_the_speaker_s_name() {
    let mut actor = new_actor(8, 8, 8);
    let (_alice, _) = join(&mut actor, 1, "Alice");
    let (mut bob, _) = join(&mut actor, 2, "Bob");
    let line = ClientPacket::Message(MessagePacket {
        player_id: -1,
        message: PacketString::from_str("hello world").unwrap(),
    });
    let actions = line.exec(&mut actor, &mut bob);
    assert_eq!(actions.len(), 1);
    match broadcast(&actions[0]) {
        ServerPacket::Message(p) => {
            assert_eq!(p.player_id, 1);
            assert_eq!(name_of(&p.message), "Bob: hello world");
        }
        other => panic!("expected a chat line, got {:?}", other),
    }
}

#[test]
fn chat_lines_are_cut_to_sixty_four_bytes() {
    let mut actor = new_actor(8, 8, 8);
    let (alice, _) = join(&mut actor, 1, "Alice");
    let event = PlayerMessageEvent { entity_id: alice.player_id.unwrap(), message: "m".repeat(64) };
    let actions = actor.player_message(&event);
    match broadcast(&actions[0]) {
        ServerPacket::Message(p) => {
            assert_eq!(name_of(&p.message), format!("Alice: {}", "m".repeat(57)));
        }
        other => panic!("expected a chat line, got {:?}", other),
    }
}

#[test]
fn disconnect_frees_the_identifier_and_tells_the_others() {
    let mut actor = new_actor(8, 8, 8);
    let (alice, _) = join(&mut actor, 1, "Alice");
    let (bob, _) = join(&mut actor, 2, "Bob");
    let (carol, _) = join(&mut actor, 3, "Carol");
    let actions = actor.player_disconnect(&PlayerDisconnectEvent(2));
    assert_eq!(actions.len(), 2);
    for (action, to) in actions.iter().zip([alice, carol]) {
        match unicast(action, to.player_id.unwrap()) {
            ServerPacket::DespawnPlayer(p) => assert_eq!(p.player_id, 1),
            other => panic!("expected a despawn, got {:?}", other),
        }
    }
    assert_eq!(actor.session_count(), 2);
    assert_eq!(actor.session(0).player.name, "Alice");
    assert_eq!(actor.session(1).player.name, "Carol");
    assert_eq!(actor.ids().get_entity_id(1), None);
    assert_eq!(actor.ids().get_player_id(bob.player_id.unwrap()), None);
    assert_eq!(actor.ids().get_entity_id(0), alice.player_id);
    assert_eq!(actor.ids().get_entity_id(2), carol.player_id);

    // the next to join takes the freed identifier
    let (dave, _) = join(&mut actor, 4, "Dave");
    assert_eq!(actor.ids().get_player_id(dave.player_id.unwrap()), Some(1));
}

#[test]
fn disconnect_of_an_unknown_address_changes_nothing() {
    let mut actor = new_actor(8, 8, 8);
    let (_alice, _) = join(&mut actor, 1, "Alice");
    assert!(actor.player_disconnect(&PlayerDisconnectEvent(77)).is_empty());
    assert_eq!(actor.session_count(), 1);
    assert!(actor.ids().get_entity_id(0).is_some());
}

#[test]
fn every_session_plays_as_an_identifier_in_range() {
    let mut actor = new_actor(2, 2, 2);
    for i in 0..20u64 {
        join(&mut actor, i, "p");
    }
    actor.player_disconnect(&PlayerDisconnectEvent(3));
    actor.player_disconnect(&PlayerDisconnectEvent(11));
    join(&mut actor, 100, "q");
    assert_eq!(actor.session_count(), 19);
    assert_eq!(actor.find_session(actor.session(18).handle), Some(18));
    for i in 0..actor.session_count() {
        let session = actor.session(i);
        assert!((0..=126).contains(&session.player.id));
        assert_eq!(actor.ids().get_entity_id(session.player.id), Some(session.handle));
        assert_eq!(actor.ids().get_player_id(session.handle), Some(session.player.id));
    }
}
