use minecraftd::frame::{decode_frame_body, encode_frame};
use minecraftd::packet::{Packet, PacketError, ProtocolBound, ProtocolState, RawPacket};
use minecraftd::varint::{encode_varint, read_varint, varint_length, VarInt, VarIntError};

fn round_trip_varint(n: i32) {
    let bytes = encode_varint(VarInt(n));
    assert_eq!(varint_length(VarInt(n)), bytes.len());
    let (v, next) = read_varint(&bytes, 0).unwrap();
    assert_eq!(v, VarInt(n));
    assert_eq!(next, bytes.len());
}

#[test]
fn varint_known_encodings() {
    assert_eq!(encode_varint(VarInt(0)), vec![0x00]);
    assert_eq!(encode_varint(VarInt(1)), vec![0x01]);
    assert_eq!(encode_varint(VarInt(127)), vec![0x7f]);
    assert_eq!(encode_varint(VarInt(128)), vec![0x80, 0x01]);
    assert_eq!(encode_varint(VarInt(255)), vec![0xff, 0x01]);
    assert_eq!(encode_varint(VarInt(25565)), vec![0xdd, 0xc7, 0x01]);
    assert_eq!(encode_varint(VarInt(2097151)), vec![0xff, 0xff, 0x7f]);
    assert_eq!(encode_varint(VarInt(i32::MAX)), vec![0xff, 0xff, 0xff, 0xff, 0x07]);
    assert_eq!(encode_varint(VarInt(-1)), vec![0xff, 0xff, 0xff, 0xff, 0x0f]);
    assert_eq!(encode_varint(VarInt(i32::MIN)), vec![0x80, 0x80, 0x80, 0x80, 0x08]);
}

#[test]
fn varint_round_trips_non_negative_and_negative() {
    for n in [0, 1, 2, 127, 128, 300, 16383, 16384, 25565, 2097151, 2097152, 1 << 28, i32::MAX] {
        round_trip_varint(n);
    }
    for n in [-1, -2, -128, -25565, i32::MIN] {
        assert_eq!(encode_varint(VarInt(n)).len(), 5);
        round_trip_varint(n);
    }
}

#[test]
fn varint_lengths() {
    assert_eq!(varint_length(VarInt(0)), 1);
    assert_eq!(varint_length(VarInt(127)), 1);
    assert_eq!(varint_length(VarInt(128)), 2);
    assert_eq!(varint_length(VarInt(16384)), 3);
    assert_eq!(varint_length(VarInt(-1)), 5);
}

#[test]
fn varint_longer_than_five_bytes_is_rejected() {
    let bytes = [0x80, 0x80, 0x80, 0x80, 0x80, 0x01];
    assert_eq!(read_varint(&bytes, 0), Err(VarIntError::TooLong));
    let five = [0xff, 0xff, 0xff, 0xff, 0x80];
    assert_eq!(read_varint(&five, 0), Err(VarIntError::TooLong));
}

#[test]
fn varint_truncated_is_incomplete() {
    assert_eq!(read_varint(&[0x80, 0x80], 0), Err(VarIntError::Incomplete));
    assert_eq!(read_varint(&[], 0), Err(VarIntError::Incomplete));
    assert_eq!(read_varint(&[0x05, 0x80], 1), Err(VarIntError::Incomplete));
    assert_eq!(read_varint(&[0x05, 0x2a], 1), Ok((VarInt(42), 2)));
}

fn handshake(addr: &str, intent: ProtocolState) -> Packet {
    Packet::Handshake {
        protocol_version: VarInt(754),
        server_address: addr.to_string(),
        server_port: 25565,
        intent,
    }
}

#[test]
fn handshake_encodes_to_known_bytes() {
    let raw = handshake("a.example", ProtocolState::Login).to_raw_packet();
    assert_eq!(raw.packet_id, VarInt(0));
    let mut expected = vec![0xf2, 0x05, 9];
    expected.extend_from_slice(b"a.example");
    expected.extend_from_slice(&[0x63, 0xdd, 0x02]);
    assert_eq!(raw.data, expected);
}

#[test]
fn handshake_round_trips() {
    for intent in [ProtocolState::Status, ProtocolState::Login, ProtocolState::Transfer] {
        let raw = handshake("a.example", intent).to_raw_packet();
        let p = Packet::from_raw_packet(ProtocolState::Handshaking, ProtocolBound::Serverbound, &raw).unwrap();
        match p {
            Packet::Handshake { protocol_version, server_address, server_port, intent: i } => {
                assert_eq!(protocol_version, VarInt(754));
                assert_eq!(server_address, "a.example");
                assert_eq!(server_port, 25565);
                assert_eq!(i, intent);
            }
            other => panic!("unexpected packet {:?}", other),
        }
    }
}

#[test]
fn status_packets_round_trip() {
    let raw = Packet::StatusRequest.to_raw_packet();
    assert!(raw.data.is_empty());
    assert!(matches!(
        Packet::from_raw_packet(ProtocolState::Status, ProtocolBound::Serverbound, &raw),
        Ok(Packet::StatusRequest)
    ));

    let raw = Packet::PingRequest { timestamp: 123 }.to_raw_packet();
    assert_eq!(raw.packet_id, VarInt(1));
    assert_eq!(raw.data, vec![0, 0, 0, 0, 0, 0, 0, 123]);
    assert!(matches!(
        Packet::from_raw_packet(ProtocolState::Status, ProtocolBound::Serverbound, &raw),
        Ok(Packet::PingRequest { timestamp: 123 })
    ));

    let raw = Packet::PongResponse { timestamp: -2 }.to_raw_packet();
    assert_eq!(raw.data, vec![0xff, 0xff, 0xff, 0xff, 0xff, 0xff, 0xff, 0xfe]);
    assert!(matches!(
        Packet::from_raw_packet(ProtocolState::Status, ProtocolBound::Clientbound, &raw),
        Ok(Packet::PongResponse { timestamp: -2 })
    ));

    let json = "{\"description\":\"héllo\"}".to_string();
    let raw = Packet::StatusResponse { json_response: json.clone() }.to_raw_packet();
    match Packet::from_raw_packet(ProtocolState::Status, ProtocolBound::Clientbound, &raw).unwrap() {
        Packet::StatusResponse { json_response } => assert_eq!(json_response, json),
        other => panic!("unexpected packet {:?}", other),
    }

    let reason = "\"bye\"".to_string();
    let raw = Packet::Disconnect { reason: reason.clone() }.to_raw_packet();
    match Packet::from_raw_packet(ProtocolState::Login, ProtocolBound::Clientbound, &raw).unwrap() {
        Packet::Disconnect { reason: r } => assert_eq!(r, reason),
        other => panic!("unexpected packet {:?}", other),
    }
}

#[test]
fn unknown_and_malformed_packets() {
    let raw = RawPacket { packet_id: VarInt(5), data: vec![] };
    assert_eq!(
        Packet::from_raw_packet(ProtocolState::Status, ProtocolBound::Serverbound, &raw).unwrap_err(),
        PacketError::UnknownPacket
    );
    let raw = RawPacket { packet_id: VarInt(0), data: vec![] };
    assert_eq!(
        Packet::from_raw_packet(ProtocolState::Handshaking, ProtocolBound::Clientbound, &raw).unwrap_err(),
        PacketError::UnknownPacket
    );
    assert_eq!(
        Packet::from_raw_packet(ProtocolState::Transfer, ProtocolBound::Serverbound, &raw).unwrap_err(),
        PacketError::UnknownPacket
    );
    let raw = RawPacket { packet_id: VarInt(1), data: vec![1, 2, 3] };
    assert_eq!(
        Packet::from_raw_packet(ProtocolState::Status, ProtocolBound::Serverbound, &raw).unwrap_err(),
        PacketError::Malformed
    );
    let mut data = vec![0xf2, 0x05, 1, b'a', 0x63, 0xdd, 0x07];
    let raw = RawPacket { packet_id: VarInt(0), data: data.clone() };
    assert_eq!(
        Packet::from_raw_packet(ProtocolState::Handshaking, ProtocolBound::Serverbound, &raw).unwrap_err(),
        PacketError::Malformed
    );
    data[2] = 2;
    data[3] = 0xff;
    let raw = RawPacket { packet_id: VarInt(0), data };
    assert_eq!(
        Packet::from_raw_packet(ProtocolState::Handshaking, ProtocolBound::Serverbound, &raw).unwrap_err(),
        PacketError::Malformed
    );
    let raw = RawPacket { packet_id: VarInt(0), data: vec![2, 0xc3, 0x28] };
    assert_eq!(
        Packet::from_raw_packet(ProtocolState::Login, ProtocolBound::Clientbound, &raw).unwrap_err(),
        PacketError::Malformed
    );
}

#[test]
fn frames_round_trip() {
    let raw = Packet::PingRequest { timestamp: 7 }.to_raw_packet();
    let frame = encode_frame(&raw);
    assert_eq!(frame, vec![9, 1, 0, 0, 0, 0, 0, 0, 0, 7]);
    let (len, next) = read_varint(&frame, 0).unwrap();
    assert_eq!(len, VarInt(9));
    let back = decode_frame_body(&frame[next..]).unwrap();
    assert_eq!(back.packet_id, VarInt(1));
    assert_eq!(back.data, raw.data);
    assert!(decode_frame_body(&[]).is_err());
}
