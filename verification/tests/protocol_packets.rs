use wakfu::buf::cursor::ByteCursor;
use wakfu::buf::error::BufReadError;
use wakfu::buf::read::WakfuBufReadable;
use wakfu::buf::write::WakfuBufWritable;
use wakfu::login::LoginPhase;
use wakfu::protocol::connection::clientbound_dispatch_credentials_authentication_packet::ClientboundDispatchCredentialsAuthenticationPacket;
use wakfu::protocol::connection::clientbound_publickey_request_packet::ClientboundPublicKeyRequestPacket;
use wakfu::protocol::connection::clientbound_version_packet::ClientboundVersionPacket;
use wakfu::protocol::connection::serverbound_client_ip_packet::ServerboundClientIpPacket;
use wakfu::protocol::connection::serverbound_force_disconnection_reason_packet::{
    disconnection_reason_label, ServerboundForceDisconnectionReasonPacket,
};
use wakfu::protocol::connection::serverbound_publickey_packet::ServerboundPublicKeyPacket;
use wakfu::protocol::connection::serverbound_version_result_packet::ServerboundVersionResultPacket;
use wakfu::protocol::connection::{ClientboundConnectionPacket, ServerboundConnectionPacket};
use wakfu::protocol::packets::{
    deserialize_packet, serialize_packet, ClientboundPacket, ProtocolAdapter, ProtocolPacket,
    ProtocolPacketHeader,
};
use wakfu::protocol::read::ReadPacketError;

#[test]
fn header_sizes() {
    assert_eq!(ProtocolAdapter::ClientToServer.get_header_size(), 5);
    assert_eq!(ProtocolAdapter::ServerToClient.get_header_size(), 4);
}

#[test]
fn client_header_has_an_architecture_target() {
    let mut c = ByteCursor::new(vec![0, 9, 8, 0x01, 0xf4, 42]);
    let h = ProtocolAdapter::ClientToServer.read_packet_header(&mut c).unwrap();
    assert_eq!(h, ProtocolPacketHeader { length: 9, architecture_target: Some(8), id: 500 });
    assert_eq!(c.position(), 5);

    let mut c = ByteCursor::new(vec![0, 9, 0x01, 0x66]);
    let h = ProtocolAdapter::ServerToClient.read_packet_header(&mut c).unwrap();
    assert_eq!(h, ProtocolPacketHeader { length: 9, architecture_target: None, id: 358 });
}

#[test]
fn short_header_fails() {
    let mut c = ByteCursor::new(vec![0, 9, 8, 1]);
    assert!(matches!(
        ProtocolAdapter::ClientToServer.read_packet_header(&mut c),
        Err(BufReadError::Io { .. })
    ));
    assert_eq!(c.position(), 4);
}

#[test]
fn header_writes_target_only_when_present() {
    let mut buf = Vec::new();
    ProtocolPacketHeader { length: 5, architecture_target: Some(8), id: 2 }.write_into(&mut buf);
    assert_eq!(buf, vec![0, 5, 8, 0, 2]);
    let mut buf = Vec::new();
    ProtocolPacketHeader { length: 4, architecture_target: None, id: 2 }.write_into(&mut buf);
    assert_eq!(buf, vec![0, 4, 0, 2]);
}

#[test]
fn body_length_is_frame_less_header() {
    let h = ProtocolPacketHeader { length: 12, architecture_target: None, id: 7 };
    assert_eq!(ProtocolAdapter::ServerToClient.body_length(&h), 8);
    assert_eq!(ProtocolAdapter::ClientToServer.body_length(&h), 7);
}

#[test]
fn serialize_version_packet() {
    let packet = ClientboundVersionPacket { major: 1, minor: 82, build_version: "-1".to_string() }.get();
    let frame = serialize_packet(packet, ProtocolAdapter::ClientToServer);
    assert_eq!(frame, vec![0, 11, 8, 0, 2, 1, 0, 82, 2, b'-', b'1']);
}

#[test]
fn serialize_public_key_request_addresses_the_phase() {
    let packet = ClientboundPublicKeyRequestPacket { server_id: LoginPhase::Dispatch }.get();
    assert_eq!(packet.architecture_target(), Some(8));
    assert_eq!(packet.id(), 500);
    let frame = serialize_packet(packet, ProtocolAdapter::ClientToServer);
    assert_eq!(frame, vec![0, 5, 8, 0x01, 0xf4]);
}

#[test]
fn deserialize_round_trips_client_packets() {
    let packet = ClientboundVersionPacket { major: 1, minor: 82, build_version: "1.82.3".to_string() }.get();
    let frame = serialize_packet(packet, ProtocolAdapter::ClientToServer);
    let back: ClientboundConnectionPacket =
        deserialize_packet(&mut ByteCursor::new(frame), ProtocolAdapter::ClientToServer).unwrap();
    match back {
        ClientboundConnectionPacket::Version(p) => {
            assert_eq!((p.major, p.minor, p.build_version.as_str()), (1, 82, "1.82.3"));
        }
        other => panic!("unexpected {:?}", other),
    }
}

#[test]
fn public_key_request_loses_its_server_id() {
    let packet = ClientboundPublicKeyRequestPacket { server_id: 8 }.get();
    let frame = serialize_packet(packet, ProtocolAdapter::ClientToServer);
    let back: ClientboundConnectionPacket =
        deserialize_packet(&mut ByteCursor::new(frame), ProtocolAdapter::ClientToServer).unwrap();
    match back {
        ClientboundConnectionPacket::PublicKeyRequest(p) => assert_eq!(p.server_id, 0),
        other => panic!("unexpected {:?}", other),
    }
}

#[test]
fn deserialize_round_trips_server_packets() {
    let packets = vec![
        ServerboundVersionResultPacket {
            accepted: true,
            major: 1,
            minor: 82,
            revision: 3,
            build_version: "-1".to_string(),
        }
        .get(),
        ServerboundClientIpPacket { ip: [127, 0, 0, 1] }.get(),
        ServerboundForceDisconnectionReasonPacket { reason: 79 }.get(),
        ServerboundPublicKeyPacket { salt: -42, public_key: vec![1, 2, 3, 4, 5] }.get(),
    ];
    for packet in packets {
        let id = packet.id();
        let frame = serialize_packet(packet, ProtocolAdapter::ServerToClient);
        assert_eq!(frame[0] as usize * 256 + frame[1] as usize, frame.len());
        let back: ServerboundConnectionPacket =
            deserialize_packet(&mut ByteCursor::new(frame), ProtocolAdapter::ServerToClient)
                .unwrap();
        assert_eq!(back.id(), id);
        match back {
            ServerboundConnectionPacket::VersionResult(p) => {
                assert!(p.accepted);
                assert_eq!((p.major, p.minor, p.revision), (1, 82, 3));
                assert_eq!(p.build_version, "-1");
            }
            ServerboundConnectionPacket::ClientIp(p) => assert_eq!(p.ip, [127, 0, 0, 1]),
            ServerboundConnectionPacket::ForceDisconnectionReason(p) => assert_eq!(p.reason, 79),
            ServerboundConnectionPacket::PublicKey(p) => {
                assert_eq!(p.salt, -42);
                assert_eq!(p.public_key, vec![1, 2, 3, 4, 5]);
            }
        }
    }
}

#[test]
fn public_key_takes_the_rest_of_the_packet() {
    let mut c = ByteCursor::new(vec![0, 0, 0, 0, 0, 0, 0, 7, 9, 8, 7]);
    let p = ServerboundPublicKeyPacket::read_from(&mut c).unwrap();
    assert_eq!(p.salt, 7);
    assert_eq!(p.public_key, vec![9, 8, 7]);
    assert_eq!(c.remaining_len(), 0);
    let mut buf = Vec::new();
    p.write_into(&mut buf);
    assert_eq!(buf, vec![0, 0, 0, 0, 0, 0, 0, 7, 9, 8, 7]);
}

#[test]
fn unknown_id_is_refused() {
    let mut c = ByteCursor::new(vec![0, 4, 0, 99]);
    match deserialize_packet::<ServerboundConnectionPacket>(&mut c, ProtocolAdapter::ServerToClient) {
        Err(e) => match *e {
            ReadPacketError::UnknownPacketId { state_name, id } => {
                assert_eq!(state_name, "ConnectionPacket");
                assert_eq!(id, 99);
            }
            other => panic!("unexpected {:?}", other),
        },
        Ok(p) => panic!("unexpected {:?}", p),
    }
}

#[test]
fn leftover_bytes_are_refused() {
    let mut c = ByteCursor::new(vec![0, 7, 0, 11, 79, 1, 2]);
    match deserialize_packet::<ServerboundConnectionPacket>(&mut c, ProtocolAdapter::ServerToClient) {
        Err(e) => match *e {
            ReadPacketError::LeftoverData { data, packet_name } => {
                assert_eq!(data, vec![1, 2]);
                assert_eq!(packet_name, "ServerboundForceDisconnectionReasonPacket");
            }
            other => panic!("unexpected {:?}", other),
        },
        Ok(p) => panic!("unexpected {:?}", p),
    }
}

#[test]
fn truncated_body_is_a_parse_error() {
    let mut c = ByteCursor::new(vec![0, 6, 1, 0x66, 127, 0]);
    match deserialize_packet::<ServerboundConnectionPacket>(&mut c, ProtocolAdapter::ServerToClient) {
        Err(e) => match *e {
            ReadPacketError::Parse { packet_id, packet_name, source } => {
                assert_eq!(packet_id, 358);
                assert_eq!(packet_name, "ServerboundClientIpPacket");
                assert!(matches!(source, BufReadError::Io { .. }));
            }
            other => panic!("unexpected {:?}", other),
        },
        Ok(p) => panic!("unexpected {:?}", p),
    }
}

#[test]
fn truncated_header_is_a_packet_id_error() {
    let mut c = ByteCursor::new(vec![0, 6, 1]);
    match deserialize_packet::<ServerboundConnectionPacket>(&mut c, ProtocolAdapter::ServerToClient) {
        Err(e) => assert!(matches!(*e, ReadPacketError::ReadPacketId { .. })),
        Ok(p) => panic!("unexpected {:?}", p),
    }
}

#[test]
fn dispatch_packets_target_the_dispatch_server() {
    let p = ClientboundDispatchCredentialsAuthenticationPacket { encrypted_credentials: vec![1, 2] };
    assert_eq!(p.architecture_target(), 8);
    let mut buf = Vec::new();
    p.write_into(&mut buf);
    assert_eq!(buf, vec![2, 1, 2]);
    let mut c = ByteCursor::new(buf);
    let back = ClientboundDispatchCredentialsAuthenticationPacket::read_from(&mut c).unwrap();
    assert_eq!(back.encrypted_credentials, vec![1, 2]);
}

#[test]
fn login_phases() {
    assert_eq!(LoginPhase::SteamLink, 8);
    assert_eq!(LoginPhase::Dispatch, 8);
    assert_eq!(LoginPhase::Connection, 1);
    assert_eq!(LoginPhase::Connected, 0);
}

#[test]
fn disconnection_labels() {
    assert_eq!(disconnection_reason_label(79), "disconnection.spam");
    assert_eq!(disconnection_reason_label(14), "disconnection.accountBanned");
    assert_eq!(disconnection_reason_label(17), "disconnection.accountBanned");
    assert_eq!(disconnection_reason_label(53), "disconnection.timedSessionEnd");
    assert_eq!(disconnection_reason_label(0), "connection.closed");
}
