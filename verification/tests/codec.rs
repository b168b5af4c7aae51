use vintage::networking::c2s;
use vintage::networking::client_packet::{
    add_default_packets, ClientPacket, ClientPacketID, ClientPacketRegistry,
};
use vintage::networking::extension::{ExtEntryPacket, ExtInfoPacket};
use vintage::networking::fixed::{i8_from_byte, i8_to_byte};
use vintage::networking::reader::PacketReader;
use vintage::networking::s2c;
use vintage::networking::server_packet::ServerPacket;
use vintage::networking::writer::{PacketWriter, S2CPacket};
use vintage::networking::{FByte, FShort, PacketError, PacketString};

fn field(text: &str) -> PacketString {
    PacketString::from_str(text).unwrap()
}

fn padded(text: &str) -> Vec<u8> {
    let mut bytes = text.as_bytes().to_vec();
    bytes.resize(64, b' ');
    bytes
}

fn written<P: S2CPacket>(packet: &P) -> Vec<u8> {
    let mut writer = PacketWriter::new_empty();
    writer.write_packet(packet).unwrap();
    writer.into_inner()
}

#[test]
fn signed_bytes_keep_their_bits() {
    assert_eq!(i8_from_byte(0), 0);
    assert_eq!(i8_from_byte(127), 127);
    assert_eq!(i8_from_byte(128), -128);
    assert_eq!(i8_from_byte(255), -1);
    assert_eq!(i8_to_byte(-1), 255);
    assert_eq!(i8_to_byte(-128), 128);
    assert_eq!(i8_to_byte(5), 5);
    for b in 0..=255u8 {
        assert_eq!(i8_to_byte(i8_from_byte(b)), b);
    }
}

#[test]
fn packet_string_pads_with_spaces() {
    let s = field("Alice");
    assert_eq!(s.0.to_vec(), padded("Alice"));
    assert_eq!(s.0[4], b'e');
    assert_eq!(s.0[5], b' ');
    assert_eq!(s.0[63], b' ');
}

#[test]
fn packet_string_takes_exactly_sixty_four_bytes() {
    let text = "x".repeat(64);
    let s = field(&text);
    assert_eq!(s.0.to_vec(), text.as_bytes().to_vec());
    assert_eq!(s.to_string(), text);
}

#[test]
fn packet_string_refuses_sixty_five_bytes() {
    let text = "x".repeat(65);
    assert_eq!(PacketString::from_str(&text).unwrap_err(), PacketError::StringTooLong);
}

#[test]
fn packet_string_counts_bytes_not_characters() {
    // 32 two-byte characters fill the field; one more byte does not fit
    let fits = "é".repeat(32);
    assert_eq!(field(&fits).to_string(), fits);
    let too_long = format!("{}a", fits);
    assert_eq!(PacketString::from_str(&too_long).unwrap_err(), PacketError::StringTooLong);
}

#[test]
fn packet_string_round_trip_drops_trailing_spaces() {
    assert_eq!(field("Alice").to_string(), "Alice");
    assert_eq!(field("Alice  ").to_string(), "Alice");
    assert_eq!(field("  two words ").to_string(), "  two words");
    assert_eq!(field("").to_string(), "");
    assert_eq!(field("    ").to_string(), "");
    assert_eq!(field("grüße ").to_string(), "grüße");
}

#[test]
fn packet_string_trimmed_gives_the_bytes_without_padding() {
    assert_eq!(field("abc").trimmed(), b"abc".to_vec());
    assert_eq!(field("").trimmed(), Vec::<u8>::new());
    assert_eq!(PacketString::new([b' '; 64]).trimmed(), Vec::<u8>::new());
}

#[test]
fn packet_string_from_bytes_clips_at_sixty_four() {
    let long = vec![b'z'; 100];
    let s = PacketString::from_bytes_clipped(&long);
    assert_eq!(s.0.to_vec(), vec![b'z'; 64]);
    let short = PacketString::from_bytes_clipped(b"hi");
    assert_eq!(short.0.to_vec(), padded("hi"));
}

#[test]
fn packet_string_reads_invalid_utf8_with_replacement() {
    let mut data = [b' '; 64];
    data[0] = b'a';
    data[1] = 0xff;
    data[2] = b'b';
    assert_eq!(PacketString::new(data).to_string(), "a\u{fffd}b");
}

#[test]
fn reader_reads_fields_front_to_back() {
    let mut reader = PacketReader::new(vec![0x07, 0xff, 0x12, 0x34, 0xff, 0xfe, 0xe0, 0, 0, 1, 0]);
    assert_eq!(reader.remaining_len(), 11);
    assert_eq!(reader.read_byte(), Ok(0x07));
    assert_eq!(reader.read_sbyte(), Ok(-1));
    assert_eq!(reader.read_short(), Ok(0x1234));
    assert_eq!(reader.read_fshort(), Ok(FShort(-2)));
    assert_eq!(reader.read_fbyte(), Ok(FByte(-32)));
    assert_eq!(reader.read_int(), Ok(256));
    assert_eq!(reader.remaining_len(), 0);
}

#[test]
fn reader_reads_big_endian_shorts() {
    let mut reader = PacketReader::new(vec![0x00, 0x01, 0x01, 0x00, 0x7f, 0xff, 0x80, 0x00]);
    assert_eq!(reader.read_short(), Ok(1));
    assert_eq!(reader.read_short(), Ok(256));
    assert_eq!(reader.read_short(), Ok(i16::MAX));
    assert_eq!(reader.read_short(), Ok(i16::MIN));
}

#[test]
fn reader_reads_big_endian_ints() {
    let mut reader = PacketReader::new(vec![0, 0x10, 0, 0, 0xff, 0xff, 0xff, 0xfe]);
    assert_eq!(reader.read_int(), Ok(0x10_0000));
    assert_eq!(reader.read_int(), Ok(-2));
}

#[test]
fn reader_reports_short_reads_and_is_exhausted_after() {
    let mut reader = PacketReader::new(vec![1, 2, 3]);
    assert_eq!(reader.read_int(), Err(PacketError::MalformedPacket));
    assert_eq!(reader.remaining_len(), 0);
    assert_eq!(reader.read_byte(), Err(PacketError::MalformedPacket));

    let mut reader = PacketReader::new(vec![1]);
    assert_eq!(reader.read_short(), Err(PacketError::MalformedPacket));
    let mut reader = PacketReader::new(vec![]);
    assert_eq!(reader.read_sbyte(), Err(PacketError::MalformedPacket));
    let mut reader = PacketReader::new(vec![b' '; 63]);
    assert!(reader.read_packet_string().is_err());
    let mut reader = PacketReader::new(vec![0; 1023]);
    assert!(reader.read_byte_array().is_err());
}

#[test]
fn reader_reads_strings_and_arrays() {
    let mut data = padded("Notch");
    data.extend(std::iter::repeat(9u8).take(1024));
    data.push(0x55);
    let mut reader = PacketReader::new(data);
    assert_eq!(reader.read_packet_string().unwrap().to_string(), "Notch");
    assert_eq!(reader.read_byte_array().unwrap().to_vec(), vec![9u8; 1024]);
    assert_eq!(reader.read_byte(), Ok(0x55));
}

#[test]
fn writer_appends_fields_in_order() {
    let mut writer = PacketWriter::new_empty();
    writer.write_byte(0x07).unwrap();
    writer.write_sbyte(-1).unwrap();
    writer.write_short(0x1234).unwrap();
    writer.write_short(-2).unwrap();
    writer.write_fshort(&FShort(512)).unwrap();
    writer.write_fbyte(&FByte(-32)).unwrap();
    writer.write_int(-2).unwrap();
    writer.write_int(0x0102_0304).unwrap();
    assert_eq!(
        writer.into_inner(),
        vec![
            0x07, 0xff, 0x12, 0x34, 0xff, 0xfe, 0x02, 0x00, 0xe0, 0xff, 0xff, 0xff, 0xfe, 1, 2, 3,
            4
        ]
    );
}

#[test]
fn writer_with_capacity_starts_empty() {
    let mut writer = PacketWriter::new_with_capacity(16);
    writer.write_byte(1).unwrap();
    assert_eq!(writer.into_inner(), vec![1]);
}

#[test]
fn writer_over_existing_data_overwrites_from_the_front() {
    let mut writer = PacketWriter::new(vec![9, 9, 9, 9]);
    writer.write_short(0x0102).unwrap();
    writer.write_byte(3).unwrap();
    assert_eq!(writer.into_inner(), vec![1, 2, 3, 9]);

    let mut writer = PacketWriter::new(vec![9, 9]);
    writer.write_int(0x0102_0304).unwrap();
    assert_eq!(writer.into_inner(), vec![1, 2, 3, 4]);
}

#[test]
fn writer_writes_strings() {
    let mut writer = PacketWriter::new_empty();
    writer.write_string("hello").unwrap();
    writer.write_packet_string(&field("world")).unwrap();
    let mut expected = padded("hello");
    expected.extend(padded("world"));
    assert_eq!(writer.into_inner(), expected);
}

#[test]
fn writer_refuses_a_string_that_is_too_long_and_writes_nothing() {
    let mut writer = PacketWriter::new_empty();
    writer.write_byte(1).unwrap();
    assert_eq!(writer.write_string(&"y".repeat(65)), Err(PacketError::StringTooLong));
    assert_eq!(writer.into_inner(), vec![1]);
}

#[test]
fn writer_writes_byte_arrays() {
    let mut array = [0u8; 1024];
    array[0] = 1;
    array[1023] = 2;
    let mut writer = PacketWriter::new_empty();
    writer.write_byte_array(&array).unwrap();
    let out = writer.into_inner();
    assert_eq!(out.len(), 1024);
    assert_eq!(out[0], 1);
    assert_eq!(out[1023], 2);
}

#[test]
fn server_ident_layout() {
    let packet = s2c::ServerIdentPacket {
        protocol_version: 7,
        server_name: field("vintage"),
        server_motd: field("Vintage server"),
        user_type: 0x64,
    };
    let mut expected = vec![0x00, 7];
    expected.extend(padded("vintage"));
    expected.extend(padded("Vintage server"));
    expected.push(0x64);
    assert_eq!(written(&packet), expected);
    assert_eq!(expected.len(), 1 + 130);
}

#[test]
fn empty_packets_are_their_opcode() {
    assert_eq!(written(&s2c::PingPacket), vec![0x01]);
    assert_eq!(written(&s2c::LevelInitPacket), vec![0x02]);
}

#[test]
fn level_data_chunk_layout() {
    let mut chunk_data = [0u8; 1024];
    chunk_data[0] = 0xaa;
    chunk_data[1023] = 0xbb;
    let packet =
        s2c::LevelDataChunkPacket { chunk_length: 0x0123, chunk_data, percent_complete: 42 };
    let bytes = written(&packet);
    assert_eq!(bytes.len(), 1 + 2 + 1024 + 1);
    assert_eq!(&bytes[..4], &[0x03, 0x01, 0x23, 0xaa]);
    assert_eq!(bytes[1026], 0xbb);
    assert_eq!(bytes[1027], 42);
}

#[test]
fn level_finalise_layout() {
    let packet = s2c::LevelFinalisePacket { x_size: 128, y_size: 64, z_size: 256 };
    assert_eq!(written(&packet), vec![0x04, 0, 128, 0, 64, 1, 0]);
}

#[test]
fn server_set_block_layout() {
    let packet = s2c::SetBlockPacket { x: 5, y: 10, z: 5, block_type: 1 };
    assert_eq!(written(&packet), vec![0x06, 0, 5, 0, 10, 0, 5, 1]);
}

#[test]
fn spawn_player_layout() {
    let packet = s2c::SpawnPlayerPacket {
        player_id: -1,
        player_name: field("Alice"),
        x: FShort(512),
        y: FShort(1088),
        z: FShort(-32),
        yaw: 64,
        pitch: 200,
    };
    let mut expected = vec![0x07, 0xff];
    expected.extend(padded("Alice"));
    expected.extend([0x02, 0x00, 0x04, 0x40, 0xff, 0xe0, 64, 200]);
    assert_eq!(written(&packet), expected);
    assert_eq!(expected.len(), 1 + 73);
}

#[test]
fn movement_packet_layouts() {
    let teleport = s2c::PlayerTeleportPacket {
        player_id: 3,
        x: FShort(1),
        y: FShort(2),
        z: FShort(3),
        yaw: 4,
        pitch: 5,
    };
    assert_eq!(written(&teleport), vec![0x08, 3, 0, 1, 0, 2, 0, 3, 4, 5]);
    let both = s2c::PlayerPosOriUpdatePacket {
        player_id: 3,
        delta_x: FByte(1),
        delta_y: FByte(-1),
        delta_z: FByte(0),
        yaw: 4,
        pitch: 5,
    };
    assert_eq!(written(&both), vec![0x09, 3, 1, 0xff, 0, 4, 5]);
    let pos = s2c::PlayerPosUpdatePacket {
        player_id: 3,
        delta_x: FByte(127),
        delta_y: FByte(-128),
        delta_z: FByte(2),
    };
    assert_eq!(written(&pos), vec![0x0a, 3, 127, 128, 2]);
    let ori = s2c::PlayerOriUpdatePacket { player_id: 3, yaw: 250, pitch: 1 };
    assert_eq!(written(&ori), vec![0x0b, 3, 250, 1]);
}

#[test]
fn small_server_packet_layouts() {
    assert_eq!(written(&s2c::DespawnPlayerPacket { player_id: 126 }), vec![0x0c, 126]);
    assert_eq!(written(&s2c::UpdateUserTypePacket { user_type: 0x64 }), vec![0x0f, 0x64]);
    let mut expected = vec![0x0d, 0xff];
    expected.extend(padded("hi all"));
    assert_eq!(
        written(&s2c::MessagePacket { player_id: -1, message: field("hi all") }),
        expected
    );
    let mut expected = vec![0x0e];
    expected.extend(padded("Server is full"));
    assert_eq!(
        written(&s2c::DisconnectPlayerPacket { disconnect_reason: field("Server is full") }),
        expected
    );
}

#[test]
fn extension_packet_layouts() {
    let info = ExtInfoPacket { app_name: field("Vintage"), extension_count: 2 };
    let mut expected = vec![0x10];
    expected.extend(padded("Vintage"));
    expected.extend([0, 2]);
    assert_eq!(written(&info), expected);
    assert_eq!(info.id(), 0x10);

    let entry = ExtEntryPacket { ext_name: field("ClickDistance"), version: 1 };
    let mut expected = vec![0x11];
    expected.extend(padded("ClickDistance"));
    expected.extend([0, 0, 0, 1]);
    assert_eq!(written(&entry), expected);
    assert_eq!(entry.id(), 0x11);
}

#[test]
fn extension_packets_round_trip() {
    let info = ExtInfoPacket { app_name: field("Vintage"), extension_count: -3 };
    let bytes = written(&info);
    let mut reader = PacketReader::new(bytes[1..].to_vec());
    let back = ExtInfoPacket::deserialise(&mut reader).unwrap();
    assert_eq!(back.app_name.0, info.app_name.0);
    assert_eq!(back.extension_count, -3);
    assert_eq!(reader.remaining_len(), 0);

    let entry = ExtEntryPacket { ext_name: field("EnvColors"), version: i32::MIN };
    let bytes = written(&entry);
    let mut reader = PacketReader::new(bytes[1..].to_vec());
    let back = ExtEntryPacket::deserialise(&mut reader).unwrap();
    assert_eq!(back.ext_name.0, entry.ext_name.0);
    assert_eq!(back.version, i32::MIN);
}

#[test]
fn server_packet_ids() {
    assert_eq!(s2c::ServerIdentPacket {
        protocol_version: 7,
        server_name: field(""),
        server_motd: field(""),
        user_type: 0,
    }.id(), 0x00);
    assert_eq!(s2c::PingPacket.id(), 0x01);
    assert_eq!(s2c::LevelInitPacket.id(), 0x02);
    assert_eq!(s2c::LevelFinalisePacket { x_size: 0, y_size: 0, z_size: 0 }.id(), 0x04);
    assert_eq!(s2c::SetBlockPacket { x: 0, y: 0, z: 0, block_type: 0 }.id(), 0x06);
    assert_eq!(s2c::DespawnPlayerPacket { player_id: 0 }.id(), 0x0c);
    assert_eq!(s2c::UpdateUserTypePacket { user_type: 0 }.id(), 0x0f);
}

fn sample_server_packets() -> Vec<ServerPacket> {
    let mut chunk_data = [7u8; 1024];
    chunk_data[10] = 0;
    vec![
        ServerPacket::ServerIdent(s2c::ServerIdentPacket {
            protocol_version: 7,
            server_name: field("vintage"),
            server_motd: field("Vintage server"),
            user_type: 0x64,
        }),
        ServerPacket::Ping(s2c::PingPacket),
        ServerPacket::LevelInit(s2c::LevelInitPacket),
        ServerPacket::LevelDataChunk(s2c::LevelDataChunkPacket {
            chunk_length: 1000,
            chunk_data,
            percent_complete: 99,
        }),
        ServerPacket::LevelFinalise(s2c::LevelFinalisePacket {
            x_size: 128,
            y_size: 64,
            z_size: -1,
        }),
        ServerPacket::SetBlock(s2c::SetBlockPacket { x: -5, y: 10, z: 32767, block_type: 49 }),
        ServerPacket::SpawnPlayer(s2c::SpawnPlayerPacket {
            player_id: -1,
            player_name: field("Alice"),
            x: FShort(512),
            y: FShort(-1088),
            z: FShort(i16::MIN),
            yaw: 255,
            pitch: 0,
        }),
        ServerPacket::PlayerTeleport(s2c::PlayerTeleportPacket {
            player_id: 126,
            x: FShort(i16::MAX),
            y: FShort(0),
            z: FShort(-1),
            yaw: 1,
            pitch: 2,
        }),
        ServerPacket::PlayerPosOriUpdate(s2c::PlayerPosOriUpdatePacket {
            player_id: 0,
            delta_x: FByte(-128),
            delta_y: FByte(127),
            delta_z: FByte(-1),
            yaw: 3,
            pitch: 4,
        }),
        ServerPacket::PlayerPosUpdate(s2c::PlayerPosUpdatePacket {
            player_id: 1,
            delta_x: FByte(1),
            delta_y: FByte(0),
            delta_z: FByte(-7),
        }),
        ServerPacket::PlayerOriUpdate(s2c::PlayerOriUpdatePacket {
            player_id: 2,
            yaw: 9,
            pitch: 8,
        }),
        ServerPacket::DespawnPlayer(s2c::DespawnPlayerPacket { player_id: -128 }),
        ServerPacket::Message(s2c::MessagePacket { player_id: 5, message: field("Alice: hello") }),
        ServerPacket::DisconnectPlayer(s2c::DisconnectPlayerPacket {
            disconnect_reason: field("Server is full"),
        }),
        ServerPacket::UpdateUserType(s2c::UpdateUserTypePacket { user_type: 0x64 }),
    ]
}

#[test]
fn every_server_packet_round_trips() {
    let expected_opcodes = [
        0x00u8, 0x01, 0x02, 0x03, 0x04, 0x06, 0x07, 0x08, 0x09, 0x0a, 0x0b, 0x0c, 0x0d, 0x0e, 0x0f,
    ];
    let expected_sizes = [130usize, 0, 0, 1027, 6, 7, 73, 9, 6, 4, 3, 1, 65, 64, 1];
    for (i, packet) in sample_server_packets().iter().enumerate() {
        let bytes = packet.encode();
        assert_eq!(bytes[0], expected_opcodes[i]);
        assert_eq!(packet.id(), expected_opcodes[i]);
        assert_eq!(bytes.len(), 1 + expected_sizes[i]);
        assert_eq!(ServerPacket::size(bytes[0]), Some(expected_sizes[i]));
        let mut reader = PacketReader::new(bytes[1..].to_vec());
        let decoded = ServerPacket::decode(bytes[0], &mut reader).unwrap();
        assert_eq!(reader.remaining_len(), 0);
        assert_eq!(decoded.encode(), bytes);
        assert_eq!(format!("{:?}", decoded), format!("{:?}", packet));
    }
}

#[test]
fn server_packet_decode_refuses_unknown_opcodes_without_reading() {
    for opcode in [0x05u8, 0x10, 0x11, 0x42, 0xff] {
        let mut reader = PacketReader::new(vec![1, 2, 3]);
        assert_eq!(
            ServerPacket::decode(opcode, &mut reader).unwrap_err(),
            PacketError::UnknownOpcode
        );
        assert_eq!(reader.remaining_len(), 3);
        assert_eq!(ServerPacket::size(opcode), None);
    }
}

#[test]
fn server_packet_decode_reports_short_reads() {
    for packet in sample_server_packets() {
        let bytes = packet.encode();
        if bytes.len() == 1 {
            continue;
        }
        let mut reader = PacketReader::new(bytes[1..bytes.len() - 1].to_vec());
        assert_eq!(
            ServerPacket::decode(bytes[0], &mut reader).unwrap_err(),
            PacketError::MalformedPacket
        );
        assert_eq!(reader.remaining_len(), 0);
    }
}

fn sample_client_packets() -> Vec<ClientPacket> {
    vec![
        ClientPacket::PlayerIdent(c2s::PlayerIdentPacket {
            protocol_version: 7,
            username: field("Alice"),
            verification_key: field("x"),
            padding: 0x42,
        }),
        ClientPacket::SetBlock(c2s::SetBlockPacket { x: 5, y: 10, z: -5, mode: 1, block_type: 1 }),
        ClientPacket::Position(c2s::PositionPacket {
            player_id: -1,
            x: FShort(512),
            y: FShort(1088),
            z: FShort(-512),
            yaw: 128,
            pitch: 255,
        }),
        ClientPacket::Message(c2s::MessagePacket { player_id: -1, message: field("hello there") }),
    ]
}

#[test]
fn client_packet_kinds_have_the_protocol_s_opcodes_and_sizes() {
    assert_eq!(ClientPacketID::PlayerIdent.id(), 0x00);
    assert_eq!(ClientPacketID::SetBlock.id(), 0x05);
    assert_eq!(ClientPacketID::Position.id(), 0x08);
    assert_eq!(ClientPacketID::Message.id(), 0x0d);
    assert_eq!(ClientPacketID::PlayerIdent.size(), 130);
    assert_eq!(ClientPacketID::SetBlock.size(), 8);
    assert_eq!(ClientPacketID::Position.size(), 9);
    assert_eq!(ClientPacketID::Message.size(), 65);
    assert_eq!(ClientPacketID::from_u8(0x00), Some(ClientPacketID::PlayerIdent));
    assert_eq!(ClientPacketID::from_u8(0x05), Some(ClientPacketID::SetBlock));
    assert_eq!(ClientPacketID::from_u8(0x08), Some(ClientPacketID::Position));
    assert_eq!(ClientPacketID::from_u8(0x0d), Some(ClientPacketID::Message));
    assert_eq!(ClientPacketID::from_u8(0x01), None);
    assert_eq!(ClientPacketID::from_u8(0x10), None);
}

#[test]
fn client_packet_layouts() {
    let packets = sample_client_packets();
    let mut ident = vec![0x00, 7];
    ident.extend(padded("Alice"));
    ident.extend(padded("x"));
    ident.push(0x42);
    assert_eq!(packets[0].encode(), ident);
    assert_eq!(packets[1].encode(), vec![0x05, 0, 5, 0, 10, 0xff, 0xfb, 1, 1]);
    assert_eq!(packets[2].encode(), vec![0x08, 0xff, 2, 0, 4, 0x40, 0xfe, 0, 128, 255]);
    let mut message = vec![0x0d, 0xff];
    message.extend(padded("hello there"));
    assert_eq!(packets[3].encode(), message);
}

#[test]
fn every_client_packet_round_trips() {
    for packet in sample_client_packets() {
        let bytes = packet.encode();
        let kind = ClientPacketID::from_u8(bytes[0]).unwrap();
        assert_eq!(kind, packet.kind());
        assert_eq!(bytes.len(), 1 + kind.size());
        let mut reader = PacketReader::new(bytes[1..].to_vec());
        let decoded = kind.deserialise(&mut reader).unwrap();
        assert_eq!(reader.remaining_len(), 0);
        assert_eq!(decoded.encode(), bytes);
        assert_eq!(format!("{:?}", decoded), format!("{:?}", packet));
    }
}

#[test]
fn client_packet_decode_goes_by_the_opcode() {
    for packet in sample_client_packets() {
        let bytes = packet.encode();
        let mut reader = PacketReader::new(bytes[1..].to_vec());
        let decoded = ClientPacket::decode(bytes[0], &mut reader).unwrap();
        assert_eq!(decoded.encode(), bytes);
    }
    for opcode in [0x01u8, 0x06, 0x10, 0xff] {
        let mut reader = PacketReader::new(vec![1, 2, 3]);
        assert_eq!(
            ClientPacket::decode(opcode, &mut reader).unwrap_err(),
            PacketError::UnknownOpcode
        );
        assert_eq!(reader.remaining_len(), 3);
    }
}

#[test]
fn client_packet_decode_reports_short_reads() {
    for packet in sample_client_packets() {
        let bytes = packet.encode();
        let kind = packet.kind();
        let mut reader = PacketReader::new(bytes[1..bytes.len() - 1].to_vec());
        assert_eq!(kind.deserialise(&mut reader).unwrap_err(), PacketError::MalformedPacket);
    }
}

#[test]
fn set_block_with_a_byte_that_names_no_block_is_invalid() {
    let mut reader = PacketReader::new(vec![0, 5, 0, 10, 0, 5, 1, 50]);
    assert_eq!(
        ClientPacketID::SetBlock.deserialise(&mut reader).unwrap_err(),
        PacketError::InvalidBlock
    );
    let mut reader = PacketReader::new(vec![0, 5, 0, 10, 0, 5, 1, 49]);
    assert!(ClientPacketID::SetBlock.deserialise(&mut reader).is_ok());
    let mut reader = PacketReader::new(vec![0, 5, 0, 10, 0, 5, 1, 255]);
    assert_eq!(
        c2s::SetBlockPacket::deserialise(&mut reader).unwrap_err(),
        PacketError::InvalidBlock
    );
}

#[test]
fn registry_knows_what_was_registered() {
    let mut registry = ClientPacketRegistry::new();
    assert!(registry.get(0x00).is_none());
    assert!(registry.get(0xff).is_none());
    registry.register(ClientPacketID::Position);
    assert_eq!(registry.get(0x08).unwrap().size(), 9);
    assert_eq!(registry.get(0x08).unwrap().kind(), ClientPacketID::Position);
    assert!(registry.get(0x00).is_none());
    assert!(registry.get(0x05).is_none());
    assert!(registry.get(0x09).is_none());
    assert!(registry.get(0x0d).is_none());
}

#[test]
fn default_packets_are_the_four_of_the_protocol() {
    let mut registry = ClientPacketRegistry::new();
    add_default_packets(&mut registry);
    let expected = [(0x00u8, 130usize), (0x05, 8), (0x08, 9), (0x0d, 65)];
    for opcode in 0..=255u8 {
        match expected.iter().find(|(id, _)| *id == opcode) {
            Some((_, size)) => assert_eq!(registry.get(opcode).unwrap().size(), *size),
            None => assert!(registry.get(opcode).is_none()),
        }
    }
}

#[test]
fn registry_entry_decodes_its_packet() {
    let mut registry = ClientPacketRegistry::new();
    add_default_packets(&mut registry);
    let packet = &sample_client_packets()[2];
    let bytes = packet.encode();
    let entry = registry.get(bytes[0]).unwrap();
    let mut reader = PacketReader::new(bytes[1..].to_vec());
    let decoded = entry.deserialise(&mut reader).unwrap();
    assert_eq!(decoded.encode(), bytes);
}
