//! The packets of the connection state: version handshake and key exchange.
pub mod clientbound_dispatch_credentials_authentication_packet;
pub mod clientbound_dispatch_token_authentication_packet;
pub mod clientbound_publickey_request_packet;
pub mod clientbound_version_packet;
pub mod serverbound_client_ip_packet;
pub mod serverbound_force_disconnection_reason_packet;
pub mod serverbound_publickey_packet;
pub mod serverbound_version_result_packet;

use self::clientbound_publickey_request_packet::ClientboundPublicKeyRequestPacket;
use self::clientbound_version_packet::ClientboundVersionPacket;
use self::serverbound_client_ip_packet::ServerboundClientIpPacket;
use self::serverbound_force_disconnection_reason_packet::ServerboundForceDisconnectionReasonPacket;
use self::serverbound_publickey_packet::{
    lemma_public_key_read_after_write, ServerboundPublicKeyPacket,
};
use self::serverbound_version_result_packet::ServerboundVersionResultPacket;
use crate::buf::codec::WakfuBufCodec;
use crate::buf::cursor::ByteCursor;
use crate::buf::read::WakfuBufReadable;
use crate::buf::write::WakfuBufWritable;
use crate::protocol::packets::{
    check_no_leftover, spec_body_error, spec_read_whole, spec_unknown_id_error, ClientboundPacket,
    ProtocolPacket, ProtocolPacketHeader,
};
use crate::protocol::read::ReadPacketError;
use vstd::prelude::*;

verus! {

/// The packets that the client sends in the connection state.
#[derive(Debug, Clone)]
pub enum ClientboundConnectionPacket {
    Version(ClientboundVersionPacket),
    PublicKeyRequest(ClientboundPublicKeyRequestPacket),
}

/// What a packet of `ClientboundConnectionPacket` holds.
pub enum ClientboundConnectionPacketView {
    Version((u8, u16, Seq<char>)),
    PublicKeyRequest(u8),
}

impl DeepView for ClientboundConnectionPacket {
    type V = ClientboundConnectionPacketView;

    open spec fn deep_view(&self) -> ClientboundConnectionPacketView {
        match self {
            ClientboundConnectionPacket::Version(p) => ClientboundConnectionPacketView::Version(
                p.deep_view(),
            ),
            ClientboundConnectionPacket::PublicKeyRequest(p) => {
                ClientboundConnectionPacketView::PublicKeyRequest(p.deep_view())
            },
        }
    }
}


impl ProtocolPacket for ClientboundConnectionPacket {
    open spec fn spec_id(&self) -> u16 {
        match self {
            ClientboundConnectionPacket::Version(_) => 2,
            ClientboundConnectionPacket::PublicKeyRequest(_) => 500,
        }
    }

    /// Every packet from the client names its target.
    open spec fn spec_architecture_target(&self) -> Option<u8> {
        Some(
            match self {
                ClientboundConnectionPacket::Version(p) => p.spec_architecture_target(),
                ClientboundConnectionPacket::PublicKeyRequest(p) => p.spec_architecture_target(),
            },
        )
    }

    open spec fn spec_write(&self) -> Seq<u8> {
        match self {
            ClientboundConnectionPacket::Version(p) => p.spec_write(),
            ClientboundConnectionPacket::PublicKeyRequest(p) => p.spec_write(),
        }
    }

    /// Id 2 is a version packet, id 500 a public key request.
    open spec fn spec_read(header: ProtocolPacketHeader, body: Seq<u8>) -> Option<
        ClientboundConnectionPacketView,
    > {
        if header.id == 2 {
            match spec_read_whole::<ClientboundVersionPacket>(body) {
                Some(v) => Some(ClientboundConnectionPacketView::Version(v)),
                None => None,
            }
        } else if header.id == 500 {
            match spec_read_whole::<ClientboundPublicKeyRequestPacket>(body) {
                Some(v) => Some(ClientboundConnectionPacketView::PublicKeyRequest(v)),
                None => None,
            }
        } else {
            None
        }
    }

    open spec fn spec_read_error(
        header: ProtocolPacketHeader,
        body: Seq<u8>,
        e: ReadPacketError,
        moved: int,
    ) -> bool {
        if header.id == 2 {
            spec_body_error::<ClientboundVersionPacket>(
                2,
                "ClientboundVersionPacket"@,
                body,
                e,
                moved,
            )
        } else if header.id == 500 {
            spec_body_error::<ClientboundPublicKeyRequestPacket>(
                500,
                "ClientboundPublicKeyRequestPacket"@,
                body,
                e,
                moved,
            )
        } else {
            spec_unknown_id_error("ConnectionPacket"@, header.id, e, moved)
        }
    }

    /// The build string of a version packet fits a length byte; a public key
    /// request names server 0, the only one that its body can carry.
    open spec fn spec_round_trips(&self) -> bool {
        match self {
            ClientboundConnectionPacket::Version(p) => p.spec_encodable(),
            ClientboundConnectionPacket::PublicKeyRequest(p) => p.spec_encodable(),
        }
    }

    proof fn lemma_read_after_write(&self, header: ProtocolPacketHeader) {
        match self {
            ClientboundConnectionPacket::Version(p) => {
                p.lemma_read_after_write(Seq::empty());
                assert(p.spec_write() + Seq::<u8>::empty() =~= p.spec_write());
            },
            ClientboundConnectionPacket::PublicKeyRequest(p) => {
                p.lemma_read_after_write(Seq::empty());
                assert(p.spec_write() + Seq::<u8>::empty() =~= p.spec_write());
            },
        }
    }

    fn id(&self) -> (id: u16) {
        match self {
            ClientboundConnectionPacket::Version(_) => 2,
            ClientboundConnectionPacket::PublicKeyRequest(_) => 500,
        }
    }

    fn architecture_target(&self) -> (target: Option<u8>) {
        Some(
            match self {
                ClientboundConnectionPacket::Version(packet) => packet.architecture_target(),
                ClientboundConnectionPacket::PublicKeyRequest(packet) => {
                    packet.architecture_target()
                },
            },
        )
    }

    fn read(header: ProtocolPacketHeader, buf: &mut ByteCursor) -> (r: Result<
        Self,
        Box<ReadPacketError>,
    >) {
        proof {
            broadcast use vstd::string::to_string_from_display_ensures_for_str;

        }
        let id = header.id;
        if id == 2 {
            proof {
                ClientboundVersionPacket::lemma_spec_read_len(buf.remaining());
            }
            let data = match ClientboundVersionPacket::read(buf) {
                Ok(data) => data,
                Err(e) => {
                    return Err(
                        Box::new(
                            ReadPacketError::Parse {
                                source: e,
                                packet_id: 2,
                                packet_name: "ClientboundVersionPacket".to_string(),
                            },
                        ),
                    );
                },
            };
            match check_no_leftover(buf, "ClientboundVersionPacket") {
                Ok(()) => {},
                Err(e) => return Err(e),
            }
            Ok(data)
        } else if id == 500 {
            proof {
                assert(buf.remaining().skip(0) =~= buf.remaining());
            }
            let data = match ClientboundPublicKeyRequestPacket::read(buf) {
                Ok(data) => data,
                Err(e) => {
                    return Err(
                        Box::new(
                            ReadPacketError::Parse {
                                source: e,
                                packet_id: 500,
                                packet_name: "ClientboundPublicKeyRequestPacket".to_string(),
                            },
                        ),
                    );
                },
            };
            match check_no_leftover(buf, "ClientboundPublicKeyRequestPacket") {
                Ok(()) => {},
                Err(e) => return Err(e),
            }
            Ok(data)
        } else {
            Err(
                Box::new(
                    ReadPacketError::UnknownPacketId {
                        state_name: "ConnectionPacket".to_string(),
                        id,
                    },
                ),
            )
        }
    }

    fn write(&self, buf: &mut Vec<u8>) {
        match self {
            ClientboundConnectionPacket::Version(packet) => packet.write(buf),
            ClientboundConnectionPacket::PublicKeyRequest(packet) => packet.write(buf),
        }
    }
}


/// The packets that the server sends in the connection state.
#[derive(Debug, Clone)]
pub enum ServerboundConnectionPacket {
    VersionResult(ServerboundVersionResultPacket),
    ClientIp(ServerboundClientIpPacket),
    ForceDisconnectionReason(ServerboundForceDisconnectionReasonPacket),
    PublicKey(ServerboundPublicKeyPacket),
}

/// What a packet of `ServerboundConnectionPacket` holds.
pub enum ServerboundConnectionPacketView {
    VersionResult((bool, u8, u16, u8, Seq<char>)),
    ClientIp(Seq<u8>),
    ForceDisconnectionReason(u8),
    PublicKey((i64, Seq<u8>)),
}

impl DeepView for ServerboundConnectionPacket {
    type V = ServerboundConnectionPacketView;

    open spec fn deep_view(&self) -> ServerboundConnectionPacketView {
        match self {
            ServerboundConnectionPacket::VersionResult(p) => {
                ServerboundConnectionPacketView::VersionResult(p.deep_view())
            },
            ServerboundConnectionPacket::ClientIp(p) => ServerboundConnectionPacketView::ClientIp(
                p.deep_view(),
            ),
            ServerboundConnectionPacket::ForceDisconnectionReason(p) => {
                ServerboundConnectionPacketView::ForceDisconnectionReason(p.deep_view())
            },
            ServerboundConnectionPacket::PublicKey(p) => ServerboundConnectionPacketView::PublicKey(
                p.deep_view(),
            ),
        }
    }
}

impl ProtocolPacket for ServerboundConnectionPacket {
    open spec fn spec_id(&self) -> u16 {
        match self {
            ServerboundConnectionPacket::VersionResult(_) => 7,
            ServerboundConnectionPacket::ClientIp(_) => 358,
            ServerboundConnectionPacket::ForceDisconnectionReason(_) => 11,
            ServerboundConnectionPacket::PublicKey(_) => 412,
        }
    }

    /// Packets from the server name no target.
    open spec fn spec_architecture_target(&self) -> Option<u8> {
        None
    }

    open spec fn spec_write(&self) -> Seq<u8> {
        match self {
            ServerboundConnectionPacket::VersionResult(p) => p.spec_write(),
            ServerboundConnectionPacket::ClientIp(p) => p.spec_write(),
            ServerboundConnectionPacket::ForceDisconnectionReason(p) => p.spec_write(),
            ServerboundConnectionPacket::PublicKey(p) => p.spec_write(),
        }
    }

    /// Id 7 is a version result, 358 a client address, 11 a disconnection
    /// reason, 412 a public key.
    open spec fn spec_read(header: ProtocolPacketHeader, body: Seq<u8>) -> Option<
        ServerboundConnectionPacketView,
    > {
        if header.id == 7 {
            match spec_read_whole::<ServerboundVersionResultPacket>(body) {
                Some(v) => Some(ServerboundConnectionPacketView::VersionResult(v)),
                None => None,
            }
        } else if header.id == 358 {
            match spec_read_whole::<ServerboundClientIpPacket>(body) {
                Some(v) => Some(ServerboundConnectionPacketView::ClientIp(v)),
                None => None,
            }
        } else if header.id == 11 {
            match spec_read_whole::<ServerboundForceDisconnectionReasonPacket>(body) {
                Some(v) => Some(ServerboundConnectionPacketView::ForceDisconnectionReason(v)),
                None => None,
            }
        } else if header.id == 412 {
            match spec_read_whole::<ServerboundPublicKeyPacket>(body) {
                Some(v) => Some(ServerboundConnectionPacketView::PublicKey(v)),
                None => None,
            }
        } else {
            None
        }
    }

    open spec fn spec_read_error(
        header: ProtocolPacketHeader,
        body: Seq<u8>,
        e: ReadPacketError,
        moved: int,
    ) -> bool {
        if header.id == 7 {
            spec_body_error::<ServerboundVersionResultPacket>(
                7,
                "ServerboundVersionResultPacket"@,
                body,
                e,
                moved,
            )
        } else if header.id == 358 {
            spec_body_error::<ServerboundClientIpPacket>(
                358,
                "ServerboundClientIpPacket"@,
                body,
                e,
                moved,
            )
        } else if header.id == 11 {
            spec_body_error::<ServerboundForceDisconnectionReasonPacket>(
                11,
                "ServerboundForceDisconnectionReasonPacket"@,
                body,
                e,
                moved,
            )
        } else if header.id == 412 {
            spec_body_error::<ServerboundPublicKeyPacket>(
                412,
                "ServerboundPublicKeyPacket"@,
                body,
                e,
                moved,
            )
        } else {
            spec_unknown_id_error("ConnectionPacket"@, header.id, e, moved)
        }
    }

    /// The build string of a version result fits a length byte.
    open spec fn spec_round_trips(&self) -> bool {
        match self {
            ServerboundConnectionPacket::VersionResult(p) => p.spec_encodable(),
            _ => true,
        }
    }

    proof fn lemma_read_after_write(&self, header: ProtocolPacketHeader) {
        match self {
            ServerboundConnectionPacket::VersionResult(p) => {
                p.lemma_read_after_write(Seq::empty());
                assert(p.spec_write() + Seq::<u8>::empty() =~= p.spec_write());
            },
            ServerboundConnectionPacket::ClientIp(p) => {
                p.lemma_read_after_write(Seq::empty());
                assert(p.spec_write() + Seq::<u8>::empty() =~= p.spec_write());
            },
            ServerboundConnectionPacket::ForceDisconnectionReason(p) => {
                p.lemma_read_after_write(Seq::empty());
                assert(p.spec_write() + Seq::<u8>::empty() =~= p.spec_write());
            },
            ServerboundConnectionPacket::PublicKey(p) => {
                lemma_public_key_read_after_write(*p);
            },
        }
    }

    fn id(&self) -> (id: u16) {
        match self {
            ServerboundConnectionPacket::VersionResult(_) => 7,
            ServerboundConnectionPacket::ClientIp(_) => 358,
            ServerboundConnectionPacket::ForceDisconnectionReason(_) => 11,
            ServerboundConnectionPacket::PublicKey(_) => 412,
        }
    }

    fn architecture_target(&self) -> (target: Option<u8>) {
        None
    }

    fn read(header: ProtocolPacketHeader, buf: &mut ByteCursor) -> (r: Result<
        Self,
        Box<ReadPacketError>,
    >) {
        proof {
            broadcast use vstd::string::to_string_from_display_ensures_for_str;

        }
        let id = header.id;
        if id == 7 {
            proof {
                ServerboundVersionResultPacket::lemma_spec_read_len(buf.remaining());
            }
            let data = match ServerboundVersionResultPacket::read(buf) {
                Ok(data) => data,
                Err(e) => {
                    return Err(
                        Box::new(
                            ReadPacketError::Parse {
                                source: e,
                                packet_id: 7,
                                packet_name: "ServerboundVersionResultPacket".to_string(),
                            },
                        ),
                    );
                },
            };
            match check_no_leftover(buf, "ServerboundVersionResultPacket") {
                Ok(()) => {},
                Err(e) => return Err(e),
            }
            Ok(data)
        } else if id == 358 {
            proof {
                ServerboundClientIpPacket::lemma_spec_read_len(buf.remaining());
            }
            let data = match ServerboundClientIpPacket::read(buf) {
                Ok(data) => data,
                Err(e) => {
                    return Err(
                        Box::new(
                            ReadPacketError::Parse {
                                source: e,
                                packet_id: 358,
                                packet_name: "ServerboundClientIpPacket".to_string(),
                            },
                        ),
                    );
                },
            };
            match check_no_leftover(buf, "ServerboundClientIpPacket") {
                Ok(()) => {},
                Err(e) => return Err(e),
            }
            Ok(data)
        } else if id == 11 {
            proof {
                ServerboundForceDisconnectionReasonPacket::lemma_spec_read_len(buf.remaining());
            }
            let data = match ServerboundForceDisconnectionReasonPacket::read(buf) {
                Ok(data) => data,
                Err(e) => {
                    return Err(
                        Box::new(
                            ReadPacketError::Parse {
                                source: e,
                                packet_id: 11,
                                packet_name: "ServerboundForceDisconnectionReasonPacket".to_string(),
                            },
                        ),
                    );
                },
            };
            match check_no_leftover(buf, "ServerboundForceDisconnectionReasonPacket") {
                Ok(()) => {},
                Err(e) => return Err(e),
            }
            Ok(data)
        } else if id == 412 {
            proof {
                ServerboundPublicKeyPacket::lemma_spec_read_len(buf.remaining());
            }
            let data = match ServerboundPublicKeyPacket::read(buf) {
                Ok(data) => data,
                Err(e) => {
                    return Err(
                        Box::new(
                            ReadPacketError::Parse {
                                source: e,
                                packet_id: 412,
                                packet_name: "ServerboundPublicKeyPacket".to_string(),
                            },
                        ),
                    );
                },
            };
            match check_no_leftover(buf, "ServerboundPublicKeyPacket") {
                Ok(()) => {},
                Err(e) => return Err(e),
            }
            Ok(data)
        } else {
            Err(
                Box::new(
                    ReadPacketError::UnknownPacketId {
                        state_name: "ConnectionPacket".to_string(),
                        id,
                    },
                ),
            )
        }
    }

    fn write(&self, buf: &mut Vec<u8>) {
        match self {
            ServerboundConnectionPacket::VersionResult(packet) => packet.write(buf),
            ServerboundConnectionPacket::ClientIp(packet) => packet.write(buf),
            ServerboundConnectionPacket::ForceDisconnectionReason(packet) => packet.write(buf),
            ServerboundConnectionPacket::PublicKey(packet) => packet.write(buf),
        }
    }
}


/// The protocol's ids of the client's packets of the connection state: 2 for
/// a version, 500 for a public key request; every one names a target.
pub proof fn lemma_clientbound_ids(packet: ClientboundConnectionPacket)
    ensures
        packet is Version ==> packet.spec_id() == 2,
        packet is PublicKeyRequest ==> packet.spec_id() == 500,
        packet.spec_architecture_target() is Some,
{
}

/// The protocol's ids of the server's packets of the connection state: 7 for
/// a version result, 358 for the client's address, 11 for a disconnection
/// reason, 412 for a public key; none names a target.
pub proof fn lemma_serverbound_ids(packet: ServerboundConnectionPacket)
    ensures
        packet is VersionResult ==> packet.spec_id() == 7,
        packet is ClientIp ==> packet.spec_id() == 358,
        packet is ForceDisconnectionReason ==> packet.spec_id() == 11,
        packet is PublicKey ==> packet.spec_id() == 412,
        packet.spec_architecture_target() is None,
{
}

/// A body under a server header is read as the packet its id names: id 7 as
/// a version result, 358 as the client's address, 11 as a disconnection
/// reason, 412 as a public key, each taking the whole body; any other id as
/// nothing.
pub proof fn lemma_serverbound_dispatch(header: ProtocolPacketHeader, body: Seq<u8>)
    ensures
        header.id == 7 ==> ServerboundConnectionPacket::spec_read(header, body) == match ServerboundVersionResultPacket::spec_read(body) {
            Some((v, n)) => if n == body.len() {
                Some(ServerboundConnectionPacketView::VersionResult(v))
            } else {
                None
            },
            None => None,
        },
        header.id == 358 ==> ServerboundConnectionPacket::spec_read(header, body) == match ServerboundClientIpPacket::spec_read(body) {
            Some((v, n)) => if n == body.len() {
                Some(ServerboundConnectionPacketView::ClientIp(v))
            } else {
                None
            },
            None => None,
        },
        header.id == 11 ==> ServerboundConnectionPacket::spec_read(header, body) == match ServerboundForceDisconnectionReasonPacket::spec_read(body) {
            Some((v, n)) => if n == body.len() {
                Some(ServerboundConnectionPacketView::ForceDisconnectionReason(v))
            } else {
                None
            },
            None => None,
        },
        header.id == 412 ==> ServerboundConnectionPacket::spec_read(header, body) == match ServerboundPublicKeyPacket::spec_read(body) {
            Some((v, n)) => if n == body.len() {
                Some(ServerboundConnectionPacketView::PublicKey(v))
            } else {
                None
            },
            None => None,
        },
        (header.id != 7 && header.id != 358 && header.id != 11 && header.id != 412) ==> ServerboundConnectionPacket::spec_read(header, body) is None,
{
}

/// The encoding of a version result, under a header with id 7, reads back as
/// that version result.
pub proof fn lemma_version_result_under_its_id(
    packet: ServerboundVersionResultPacket,
    header: ProtocolPacketHeader,
)
    requires
        packet.spec_encodable(),
        header.id == 7,
    ensures
        ServerboundConnectionPacket::spec_read(header, packet.spec_write()) == Some(
            ServerboundConnectionPacketView::VersionResult(packet.deep_view()),
        ),
{
    packet.lemma_read_after_write(Seq::empty());
    assert(packet.spec_write() + Seq::<u8>::empty() =~= packet.spec_write());
}

/// A body under a client header is read as the packet its id names: id 2 as
/// a version, 500 as a public key request, each taking the whole body; any
/// other id as nothing.
pub proof fn lemma_clientbound_dispatch(header: ProtocolPacketHeader, body: Seq<u8>)
    ensures
        header.id == 2 ==> ClientboundConnectionPacket::spec_read(header, body) == match ClientboundVersionPacket::spec_read(body) {
            Some((v, n)) => if n == body.len() {
                Some(ClientboundConnectionPacketView::Version(v))
            } else {
                None
            },
            None => None,
        },
        header.id == 500 ==> ClientboundConnectionPacket::spec_read(header, body) == if body.len() == 0 {
            Some(ClientboundConnectionPacketView::PublicKeyRequest(0))
        } else {
            None
        },
        (header.id != 2 && header.id != 500) ==> ClientboundConnectionPacket::spec_read(header, body) is None,
{
}

} // verus!
