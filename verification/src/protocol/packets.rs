//! The packet header, the two directions of the protocol, and turning a
//! packet into a frame of bytes and back.
use super::read::ReadPacketError;
use crate::buf::cursor::ByteCursor;
use crate::buf::endian::{be_encode, be_value, byte_radix_pow, lemma_be_decode_encode, lemma_be_encode_len, lemma_be_value_bound};
use crate::buf::error::{is_eof_io_error, BufReadError};
use crate::buf::read::{spec_fixed, WakfuBufReadable};
use crate::buf::write::{append_bytes, WakfuBufWritable};
use vstd::prelude::*;

verus! {

/// The direction of a connection, which decides the header layout: packets
/// from the client carry an architecture target byte, packets from the server
/// do not.
#[derive(Copy, Clone, Debug, PartialEq, Eq, Structural)]
pub enum ProtocolAdapter {
    ClientToServer,
    ServerToClient,
}

/// The header in front of every packet.
#[derive(Debug, Copy, Clone, PartialEq, Eq, Structural)]
pub struct ProtocolPacketHeader {
    /// The length of the whole frame, header included.
    pub length: u16,
    /// Only sent by the client.
    pub architecture_target: Option<u8>,
    pub id: u16,
}

impl ProtocolAdapter {
    /// The number of bytes of a header in this direction.
    pub open spec fn spec_header_size(self) -> nat {
        match self {
            ProtocolAdapter::ClientToServer => 5,
            ProtocolAdapter::ServerToClient => 4,
        }
    }

    /// Whether a header with this architecture target is laid out as this
    /// direction reads it: with the target byte from the client, without it
    /// from the server.
    pub open spec fn spec_carries(self, architecture_target: Option<u8>) -> bool {
        match self {
            ProtocolAdapter::ClientToServer => architecture_target is Some,
            ProtocolAdapter::ServerToClient => architecture_target is None,
        }
    }

    /// The header at the front of `bytes` and its size, or `None` where the
    /// bytes are too few: a length, the architecture target byte from the
    /// client, and an id, each big-endian.
    pub open spec fn spec_read_header(self, bytes: Seq<u8>) -> Option<(ProtocolPacketHeader, int)> {
        let size = self.spec_header_size();
        if bytes.len() >= size {
            Some(
                (
                    ProtocolPacketHeader {
                        length: be_value(bytes.take(2)) as u16,
                        architecture_target: match self {
                            ProtocolAdapter::ClientToServer => Some(bytes[2]),
                            ProtocolAdapter::ServerToClient => None,
                        },
                        id: be_value(bytes.subrange(size - 2, size as int)) as u16,
                    },
                    size as int,
                ),
            )
        } else {
            None
        }
    }

    /// Reads a packet header.
    pub fn read_packet_header(&self, buf: &mut ByteCursor) -> (r: Result<
        ProtocolPacketHeader,
        BufReadError,
    >)
        ensures
            final(buf).contents() == old(buf).contents(),
            (match self.spec_read_header(old(buf).remaining()) {
                Some((header, n)) => r == Ok::<ProtocolPacketHeader, BufReadError>(header)
                    && final(buf).remaining() == old(buf).remaining().skip(n) && final(buf).pos()
                    == old(buf).pos() + n,
                None => r matches Err(e) && is_eof_io_error(e) && final(buf).pos() == old(
                    buf,
                ).pos() + old(buf).remaining().len(),
            }),
    {
        let ghost start = buf.remaining();
        let length = match u16::read_from(buf) {
            Ok(length) => length,
            Err(e) => return Err(e),
        };
        let architecture_target = match self {
            ProtocolAdapter::ClientToServer => {
                let architecture_target = match u8::read_from(buf) {
                    Ok(architecture_target) => architecture_target,
                    Err(e) => return Err(e),
                };
                Some(architecture_target)
            },
            ProtocolAdapter::ServerToClient => None,
        };
        let id = match u16::read_from(buf) {
            Ok(id) => id,
            Err(e) => return Err(e),
        };
        proof {
            let size = self.spec_header_size() as int;
            assert(start.skip(2).take(2) =~= start.subrange(2, 4));
            assert(start.skip(2).skip(2) =~= start.skip(4));
            if size == 5 {
                assert(start.skip(2).skip(1) =~= start.skip(3));
                assert(start.skip(3).take(2) =~= start.subrange(3, 5));
                assert(start.skip(3).skip(2) =~= start.skip(5));
            }
        }
        Ok(ProtocolPacketHeader { length, architecture_target, id })
    }

    /// The number of bytes of a header in this direction.
    pub fn get_header_size(&self) -> (n: usize)
        ensures
            n == self.spec_header_size(),
    {
        match self {
            ProtocolAdapter::ClientToServer => 5,
            ProtocolAdapter::ServerToClient => 4,
        }
    }

    /// How many bytes follow a header in its frame: the frame length less the
    /// header. A frame shorter than its header has no such number.
    pub fn body_length(&self, header: &ProtocolPacketHeader) -> (n: usize)
        requires
            header.length >= self.spec_header_size(),
        ensures
            n == header.length - self.spec_header_size(),
    {
        header.length as usize - self.get_header_size()
    }
}

impl WakfuBufWritable for ProtocolPacketHeader {
    /// The length, the architecture target where there is one, and the id.
    open spec fn spec_write(&self) -> Seq<u8> {
        be_encode(self.length as nat, 2) + match self.architecture_target {
            Some(a) => seq![a],
            None => Seq::empty(),
        } + be_encode(self.id as nat, 2)
    }

    fn write_into(&self, buf: &mut Vec<u8>) {
        self.length.write_into(buf);
        if let Some(architecture_target) = self.architecture_target {
            architecture_target.write_into(buf);
        }
        self.id.write_into(buf);
        proof {
            assert(buf@ =~= old(buf)@ + self.spec_write());
        }
    }
}

/// A header written by a direction that reads it back reads back as itself,
/// whatever bytes follow.
pub proof fn lemma_header_read_after_write(
    adapter: ProtocolAdapter,
    header: ProtocolPacketHeader,
    rest: Seq<u8>,
)
    requires
        adapter.spec_carries(header.architecture_target),
    ensures
        adapter.spec_read_header(header.spec_write() + rest) == Some(
            (header, adapter.spec_header_size() as int),
        ),
        header.spec_write().len() == adapter.spec_header_size(),
{
    let l = be_encode(header.length as nat, 2);
    let i = be_encode(header.id as nat, 2);
    reveal_with_fuel(byte_radix_pow, 3);
    lemma_be_encode_len(header.length as nat, 2);
    lemma_be_encode_len(header.id as nat, 2);
    lemma_be_decode_encode(header.length as nat, 2);
    lemma_be_decode_encode(header.id as nat, 2);
    let bytes = header.spec_write() + rest;
    let size = adapter.spec_header_size() as int;
    assert(bytes.take(2) =~= l);
    assert(bytes.subrange(size - 2, size) =~= i);
}

/// A packet of a protocol state: all the packets that may travel in one
/// direction while the connection is in that state.
pub trait ProtocolPacket: Sized + DeepView {
    /// The packet id that the header carries.
    spec fn spec_id(&self) -> u16;

    /// The architecture target that the header carries, if any.
    spec fn spec_architecture_target(&self) -> Option<u8>;

    /// The body bytes of the packet.
    spec fn spec_write(&self) -> Seq<u8>;

    /// The packet that `body` holds under `header`, where it holds one and
    /// nothing more.
    spec fn spec_read(header: ProtocolPacketHeader, body: Seq<u8>) -> Option<<Self as DeepView>::V>;

    /// Whether `e` is the error of reading `body` under `header`, after which
    /// the cursor has moved `moved` bytes.
    spec fn spec_read_error(
        header: ProtocolPacketHeader,
        body: Seq<u8>,
        e: ReadPacketError,
        moved: int,
    ) -> bool;

    /// Whether every field of this packet travels in its encoding, so that
    /// reading it back gives it whole.
    spec fn spec_round_trips(&self) -> bool;

    /// The body of a packet, read under a header with its id, gives the packet back.
    proof fn lemma_read_after_write(&self, header: ProtocolPacketHeader)
        requires
            self.spec_round_trips(),
            header.id == self.spec_id(),
        ensures
            Self::spec_read(header, self.spec_write()) == Some(self.deep_view()),
    ;

    fn id(&self) -> (id: u16)
        ensures
            id == self.spec_id(),
    ;

    fn architecture_target(&self) -> (target: Option<u8>)
        ensures
            target == self.spec_architecture_target(),
    ;

    /// Reads the body that follows `header`, which must be all that is left.
    fn read(header: ProtocolPacketHeader, buf: &mut ByteCursor) -> (r: Result<
        Self,
        Box<ReadPacketError>,
    >)
        ensures
            final(buf).contents() == old(buf).contents(),
            (match Self::spec_read(header, old(buf).remaining()) {
                Some(v) => r matches Ok(p) && p.deep_view() == v && final(buf).remaining().len()
                    == 0,
                None => r matches Err(e) && Self::spec_read_error(
                    header,
                    old(buf).remaining(),
                    *e,
                    final(buf).pos() - old(buf).pos(),
                ),
            }),
    ;

    /// Appends the body of the packet.
    fn write(&self, buf: &mut Vec<u8>)
        ensures
            final(buf)@ == old(buf)@ + self.spec_write(),
    ;
}

/// A packet that the client sends, addressed to a server architecture.
pub trait ClientboundPacket {
    spec fn spec_architecture_target(&self) -> u8;

    fn architecture_target(&self) -> (target: u8)
        ensures
            target == self.spec_architecture_target(),
    ;
}

/// The error of reading the body of the packet `name` with this `id` as a
/// `P`, the cursor having moved `moved` bytes: `LeftoverData` with the bytes
/// after it, all of them taken, where it decodes but does not take the whole
/// body, else `Parse` with the error of decoding it.
pub open spec fn spec_body_error<P: WakfuBufReadable>(
    id: u16,
    name: Seq<char>,
    body: Seq<u8>,
    e: ReadPacketError,
    moved: int,
) -> bool {
    match P::spec_read(body) {
        Some((_, n)) => {
            &&& e matches ReadPacketError::LeftoverData { data, packet_name }
            &&& data@ == body.skip(n)
            &&& packet_name@ == name
            &&& moved == body.len()
        },
        None => {
            &&& e matches ReadPacketError::Parse { packet_id, packet_name, source }
            &&& packet_id == id
            &&& packet_name@ == name
            &&& P::spec_read_error(body, source, moved)
        },
    }
}

/// The error of reading a packet whose id belongs to no packet of the named
/// state, which reads nothing.
pub open spec fn spec_unknown_id_error(
    state: Seq<char>,
    id: u16,
    e: ReadPacketError,
    moved: int,
) -> bool {
    &&& e matches ReadPacketError::UnknownPacketId { state_name, id: unknown }
    &&& state_name@ == state
    &&& unknown == id
    &&& moved == 0
}

/// The packet that `body` holds as a `P`, where it takes the whole body.
pub open spec fn spec_read_whole<P: WakfuBufReadable>(body: Seq<u8>) -> Option<<P as DeepView>::V> {
    match P::spec_read(body) {
        Some((v, n)) => if n == body.len() {
            Some(v)
        } else {
            None
        },
        None => None,
    }
}

/// Checks that nothing is left after a packet's body; where something is,
/// takes it and fails with `LeftoverData`.
pub fn check_no_leftover(buf: &mut ByteCursor, packet_name: &str) -> (r: Result<
    (),
    Box<ReadPacketError>,
>)
    ensures
        final(buf).contents() == old(buf).contents(),
        old(buf).remaining().len() == 0 ==> r is Ok,
        old(buf).remaining().len() == 0 ==> final(buf).pos() == old(buf).pos(),
        old(buf).remaining().len() > 0 ==> (r matches Err(e) && *e matches ReadPacketError::LeftoverData {
            data,
            packet_name: name,
        } && data@ == old(buf).remaining() && name@ == packet_name@ && final(buf).remaining().len()
            == 0 && final(buf).pos() == old(buf).pos() + old(buf).remaining().len()),
{
    let left = buf.remaining_len();
    if left == 0 {
        return Ok(());
    }
    let leftover = buf.take_bytes(left);
    let name = packet_name.to_string();
    proof {
        broadcast use vstd::string::to_string_from_display_ensures_for_str;

        assert(leftover@ =~= old(buf).remaining());
    }
    Err(Box::new(ReadPacketError::LeftoverData { packet_name: name, data: leftover }))
}

/// The header of `packet` in a frame of this direction: the frame length
/// (truncated to 16 bits, that is, modulo 65536), the
/// packet's architecture target and its id.
pub open spec fn spec_packet_header<T: ProtocolPacket>(
    packet: T,
    protocol_adapter: ProtocolAdapter,
) -> ProtocolPacketHeader {
    ProtocolPacketHeader {
        length: ((packet.spec_write().len() + protocol_adapter.spec_header_size()) % 65536) as u16,
        architecture_target: packet.spec_architecture_target(),
        id: packet.spec_id(),
    }
}

/// The frame of `packet`: its header, then its body.
pub open spec fn spec_serialize_packet<T: ProtocolPacket>(
    packet: T,
    protocol_adapter: ProtocolAdapter,
) -> Seq<u8> {
    spec_packet_header(packet, protocol_adapter).spec_write() + packet.spec_write()
}

/// Frames a packet: its header, then its body.
pub fn serialize_packet<T: ProtocolPacket>(packet: T, protocol_adapter: ProtocolAdapter) -> (r:
    Vec<u8>)
    ensures
        r@ == spec_serialize_packet(packet, protocol_adapter),
{
    let mut data: Vec<u8> = Vec::new();
    packet.write(&mut data);
    let header = ProtocolPacketHeader {
        length: ((data.len() % 65536 + protocol_adapter.get_header_size()) % 65536) as u16,
        architecture_target: packet.architecture_target(),
        id: packet.id(),
    };
    proof {
        assert(data@ =~= packet.spec_write());
        assert((data@.len() % 65536 + protocol_adapter.spec_header_size()) % 65536 == (
        data@.len() + protocol_adapter.spec_header_size()) % 65536) by (nonlinear_arith);
    }
    let mut buffer: Vec<u8> = Vec::new();
    header.write_into(&mut buffer);
    append_bytes(&mut buffer, data.as_slice());
    buffer
}

/// The packet that a frame holds: the header, then the body read under it.
pub open spec fn spec_deserialize_packet<T: ProtocolPacket>(
    bytes: Seq<u8>,
    protocol_adapter: ProtocolAdapter,
) -> Option<<T as DeepView>::V> {
    match protocol_adapter.spec_read_header(bytes) {
        Some((header, n)) => T::spec_read(header, bytes.skip(n)),
        None => None,
    }
}

/// The error of reading a frame, the cursor having moved `moved` bytes:
/// `ReadPacketId` where the header does not decode (the cursor then at the
/// end), else the error of reading the body.
pub open spec fn spec_deserialize_packet_error<T: ProtocolPacket>(
    bytes: Seq<u8>,
    protocol_adapter: ProtocolAdapter,
    e: ReadPacketError,
    moved: int,
) -> bool {
    match protocol_adapter.spec_read_header(bytes) {
        Some((header, n)) => T::spec_read_error(header, bytes.skip(n), e, moved - n),
        None => e matches ReadPacketError::ReadPacketId { source } && is_eof_io_error(source)
            && moved == bytes.len(),
    }
}

/// Reads a frame: its header, then the packet under it.
pub fn deserialize_packet<T: ProtocolPacket>(
    buffer: &mut ByteCursor,
    protocol_adapter: ProtocolAdapter,
) -> (r: Result<T, Box<ReadPacketError>>)
    ensures
        final(buffer).contents() == old(buffer).contents(),
        (match spec_deserialize_packet::<T>(old(buffer).remaining(), protocol_adapter) {
            Some(v) => r matches Ok(p) && p.deep_view() == v && final(buffer).remaining().len()
                == 0,
            None => r matches Err(e) && spec_deserialize_packet_error::<T>(
                old(buffer).remaining(),
                protocol_adapter,
                *e,
                final(buffer).pos() - old(buffer).pos(),
            ),
        }),
{
    let header = match protocol_adapter.read_packet_header(buffer) {
        Ok(header) => header,
        Err(err) => return Err(Box::new(ReadPacketError::ReadPacketId { source: err })),
    };
    T::read(header, buffer)
}

/// A frame read back in the direction it was written in gives back the packet
/// that was framed, when the packet round-trips.
pub proof fn lemma_deserialize_after_serialize<T: ProtocolPacket>(
    packet: T,
    protocol_adapter: ProtocolAdapter,
)
    requires
        packet.spec_round_trips(),
        protocol_adapter.spec_carries(packet.spec_architecture_target()),
    ensures
        spec_deserialize_packet::<T>(spec_serialize_packet(packet, protocol_adapter), protocol_adapter)
            == Some(packet.deep_view()),
{
    let header = spec_packet_header(packet, protocol_adapter);
    lemma_header_read_after_write(protocol_adapter, header, packet.spec_write());
    let bytes = spec_serialize_packet(packet, protocol_adapter);
    assert(bytes.skip(protocol_adapter.spec_header_size() as int) =~= packet.spec_write());
    packet.lemma_read_after_write(header);
}

/// The length in the header of a frame is the length of the whole frame,
/// when the frame is shorter than 65536 bytes: reading that many bytes takes
/// exactly the frame.
pub proof fn lemma_frame_length<T: ProtocolPacket>(packet: T, protocol_adapter: ProtocolAdapter)
    requires
        protocol_adapter.spec_carries(packet.spec_architecture_target()),
        spec_serialize_packet(packet, protocol_adapter).len() < 65536,
    ensures
        protocol_adapter.spec_read_header(spec_serialize_packet(packet, protocol_adapter)) matches Some(
            (header, n),
        ) && header.length == spec_serialize_packet(packet, protocol_adapter).len() && header.id
            == packet.spec_id() && n == protocol_adapter.spec_header_size(),
{
    let header = spec_packet_header(packet, protocol_adapter);
    lemma_header_read_after_write(protocol_adapter, header, packet.spec_write());
}

} // verus!
