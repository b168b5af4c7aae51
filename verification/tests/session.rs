use vintage::actor::{Action, C2SPacket, ClientInfo, PlayerSpawnLocation, WorldActor};
use vintage::networking::client_packet::{
    add_default_packets, ClientPacket, ClientPacketID, ClientPacketRegistry,
};
use vintage::networking::listener::{
    step, SessionInput, SessionOutput, SessionState, SessionWarning,
};
use vintage::networking::s2c::{PingPacket, SetBlockPacket};
use vintage::networking::server_packet::ServerPacket;
use vintage::networking::FShort;
use vintage::player::Position;
use vintage::world::{BlockWorld, Coords};

fn registry() -> ClientPacketRegistry {
    let mut registry = ClientPacketRegistry::new();
    add_default_packets(&mut registry);
    registry
}

fn ident_bytes(name: &str) -> Vec<u8> {
    let mut bytes = vec![0x07];
    let mut username = name.as_bytes().to_vec();
    username.resize(64, b' ');
    bytes.extend(username);
    let mut key = b"x".to_vec();
    key.resize(64, b' ');
    bytes.extend(key);
    bytes.push(0x00);
    bytes
}

#[test]
fn an_opcode_asks_for_the_packet_s_bytes() {
    let registry = registry();
    for (opcode, kind, size) in [
        (0x00u8, ClientPacketID::PlayerIdent, 130usize),
        (0x05, ClientPacketID::SetBlock, 8),
        (0x08, ClientPacketID::Position, 9),
        (0x0d, ClientPacketID::Message, 65),
    ] {
        let (state, output) =
            step(SessionState::AwaitingOpcode, &registry, SessionInput::Opcode(opcode));
        assert_eq!(state, SessionState::AwaitingPayload(kind));
        assert!(matches!(output, SessionOutput::ReadPayload(n) if n == size));
    }
}

#[test]
fn an_unknown_opcode_is_a_warning_and_the_session_goes_on() {
    let registry = registry();
    for opcode in [0x01u8, 0x06, 0x10, 0xff] {
        let (state, output) =
            step(SessionState::AwaitingOpcode, &registry, SessionInput::Opcode(opcode));
        assert_eq!(state, SessionState::AwaitingOpcode);
        assert!(matches!(
            output,
            SessionOutput::Warn(SessionWarning::UnknownOpcode(o)) if o == opcode
        ));
    }
    let empty = ClientPacketRegistry::new();
    let (state, output) = step(SessionState::AwaitingOpcode, &empty, SessionInput::Opcode(0x00));
    assert_eq!(state, SessionState::AwaitingOpcode);
    assert!(matches!(output, SessionOutput::Warn(SessionWarning::UnknownOpcode(0))));
}

#[test]
fn a_payload_is_decoded_and_forwarded() {
    let registry = registry();
    let payload = vec![0xff, 0x02, 0x00, 0x04, 0x40, 0x02, 0x00, 10, 20];
    let (state, output) = step(
        SessionState::AwaitingPayload(ClientPacketID::Position),
        &registry,
        SessionInput::Payload(payload),
    );
    assert_eq!(state, SessionState::AwaitingOpcode);
    match output {
        SessionOutput::Forward(ClientPacket::Position(p)) => {
            assert_eq!(p.player_id, -1);
            assert_eq!((p.x, p.y, p.z), (FShort(512), FShort(1088), FShort(512)));
            assert_eq!((p.yaw, p.pitch), (10, 20));
        }
        other => panic!("expected a forwarded position, got {:?}", other),
    }
}

#[test]
fn a_block_change_that_names_no_block_is_dropped_with_a_warning() {
    let registry = registry();
    let (state, output) = step(
        SessionState::AwaitingPayload(ClientPacketID::SetBlock),
        &registry,
        SessionInput::Payload(vec![0, 1, 0, 2, 0, 3, 1, 200]),
    );
    assert_eq!(state, SessionState::AwaitingOpcode);
    assert!(matches!(output, SessionOutput::Warn(SessionWarning::InvalidBlock)));
}

#[test]
fn a_payload_of_the_wrong_length_ends_the_session() {
    let registry = registry();
    for payload in [vec![0u8; 7], vec![0u8; 9], vec![]] {
        let (state, output) = step(
            SessionState::AwaitingPayload(ClientPacketID::SetBlock),
            &registry,
            SessionInput::Payload(payload),
        );
        assert_eq!(state, SessionState::Terminated);
        assert!(matches!(output, SessionOutput::Disconnect));
    }
}

#[test]
fn packets_from_both_channels_are_written_as_opcode_and_fields() {
    let registry = registry();
    let packet = ServerPacket::SetBlock(SetBlockPacket { x: 5, y: 10, z: 5, block_type: 1 });
    let states =
        [SessionState::AwaitingOpcode, SessionState::AwaitingPayload(ClientPacketID::Message)];
    for state in states {
        let (next, output) = step(state, &registry, SessionInput::Unicast(packet));
        assert_eq!(next, state);
        assert!(matches!(output, SessionOutput::Write(b) if b == vec![0x06, 0, 5, 0, 10, 0, 5, 1]));
        let (next, output) =
            step(state, &registry, SessionInput::Broadcast(ServerPacket::Ping(PingPacket)));
        assert_eq!(next, state);
        assert!(matches!(output, SessionOutput::Write(b) if b == vec![0x01]));
    }
}

#[test]
fn missed_broadcasts_are_a_warning() {
    let registry = registry();
    let (state, output) =
        step(SessionState::AwaitingOpcode, &registry, SessionInput::BroadcastLagged);
    assert_eq!(state, SessionState::AwaitingOpcode);
    assert!(matches!(output, SessionOutput::Warn(SessionWarning::BroadcastLagged)));
}

#[test]
fn a_closed_channel_or_a_failed_socket_ends_the_session_with_a_disconnect() {
    let registry = registry();
    let fatal = || {
        vec![
            SessionInput::UnicastClosed,
            SessionInput::BroadcastClosed,
            SessionInput::ReadFailed,
            SessionInput::WriteFailed,
            SessionInput::InboundClosed,
        ]
    };
    let states =
        [SessionState::AwaitingOpcode, SessionState::AwaitingPayload(ClientPacketID::SetBlock)];
    for state in states {
        for input in fatal() {
            let (next, output) = step(state, &registry, input);
            assert_eq!(next, SessionState::Terminated);
            assert!(matches!(output, SessionOutput::Disconnect));
        }
    }
}

#[test]
fn input_out_of_turn_ends_the_session() {
    let registry = registry();
    let (state, output) = step(
        SessionState::AwaitingPayload(ClientPacketID::Position),
        &registry,
        SessionInput::Opcode(0x08),
    );
    assert_eq!(state, SessionState::Terminated);
    assert!(matches!(output, SessionOutput::Disconnect));
    let (state, output) =
        step(SessionState::AwaitingOpcode, &registry, SessionInput::Payload(vec![0; 9]));
    assert_eq!(state, SessionState::Terminated);
    assert!(matches!(output, SessionOutput::Disconnect));
}

#[test]
fn a_session_that_has_ended_does_nothing() {
    let registry = registry();
    let inputs = vec![
        SessionInput::Opcode(0),
        SessionInput::Payload(vec![1, 2, 3]),
        SessionInput::Unicast(ServerPacket::Ping(PingPacket)),
        SessionInput::ReadFailed,
        SessionInput::BroadcastLagged,
    ];
    for input in inputs {
        let (state, output) = step(SessionState::Terminated, &registry, input);
        assert_eq!(state, SessionState::Terminated);
        assert!(matches!(output, SessionOutput::Nothing));
    }
}

#[test]
fn bytes_from_the_wire_make_a_client_join() {
    // 00 07 "Alice" padded, "x" padded, 00
    let registry = registry();
    let mut wire = vec![0x00u8];
    wire.extend(ident_bytes("Alice"));
    assert_eq!(wire.len(), 131);

    let (state, output) =
        step(SessionState::AwaitingOpcode, &registry, SessionInput::Opcode(wire[0]));
    let size = match output {
        SessionOutput::ReadPayload(size) => size,
        other => panic!("expected a read, got {:?}", other),
    };
    assert_eq!(size, 130);
    let (state, output) = step(state, &registry, SessionInput::Payload(wire[1..1 + size].to_vec()));
    assert_eq!(state, SessionState::AwaitingOpcode);
    let packet = match output {
        SessionOutput::Forward(packet) => packet,
        other => panic!("expected a forwarded packet, got {:?}", other),
    };

    let spawn = PlayerSpawnLocation {
        position: Position { x: FShort(512), y: FShort(1088), z: FShort(512) },
        pitch: 0,
        yaw: 0,
    };
    let mut actor = WorldActor::new(BlockWorld::new_air(Coords { x: 8, y: 8, z: 8 }), spawn);
    let mut info = ClientInfo { addr: 1, player_id: None };
    let actions = packet.exec(&mut actor, &mut info);
    assert_eq!(actor.session(0).player.name, "Alice");

    // what the session writes for the first and the last packet of the join
    let first = match &actions[0] {
        Action::Unicast(_, packet) => *packet,
        other => panic!("expected a packet, got {:?}", other),
    };
    let (_, output) = step(state, &registry, SessionInput::Unicast(first));
    let mut expected = vec![0x00, 0x07];
    let mut name = b"vintage".to_vec();
    name.resize(64, b' ');
    expected.extend(name);
    let mut motd = b"Vintage server".to_vec();
    motd.resize(64, b' ');
    expected.extend(motd);
    expected.push(0x64);
    assert!(matches!(output, SessionOutput::Write(b) if b == expected));

    let last = match actions.last().unwrap() {
        Action::Broadcast(packet) => *packet,
        other => panic!("expected a broadcast, got {:?}", other),
    };
    let (_, output) = step(state, &registry, SessionInput::Broadcast(last));
    let mut expected = vec![0x07, 0x00];
    let mut name = b"Alice".to_vec();
    name.resize(64, b' ');
    expected.extend(name);
    expected.extend([0x02, 0x00, 0x04, 0x40, 0x02, 0x00, 0, 0]);
    assert!(matches!(output, SessionOutput::Write(b) if b == expected));
}
