//! The client's request for the server's public key.
use super::{ClientboundConnectionPacket, ClientboundConnectionPacketView};
use crate::buf::codec::WakfuBufCodec;
use crate::buf::cursor::ByteCursor;
use crate::buf::error::BufReadError;
use crate::buf::read::WakfuBufReadable;
use crate::buf::write::WakfuBufWritable;
use crate::protocol::packets::ClientboundPacket;
use vstd::prelude::*;

verus! {

/// The request names the server it is addressed to only in its header: its
/// body is empty.
#[derive(Clone, Debug)]
pub struct ClientboundPublicKeyRequestPacket {
    /// Not encoded in the body; it travels as the header's architecture target.
    pub server_id: u8,
}

impl DeepView for ClientboundPublicKeyRequestPacket {
    type V = u8;

    open spec fn deep_view(&self) -> u8 {
        self.server_id
    }
}

impl WakfuBufReadable for ClientboundPublicKeyRequestPacket {
    /// Reads nothing; the server id is the default, 0.
    open spec fn spec_read(bytes: Seq<u8>) -> Option<(u8, int)> {
        Some((0u8, 0))
    }

    open spec fn spec_read_error(bytes: Seq<u8>, e: BufReadError, moved: int) -> bool {
        false
    }

    proof fn lemma_spec_read_len(bytes: Seq<u8>) {
    }

    fn read_from(buf: &mut ByteCursor) -> (r: Result<Self, BufReadError>) {
        let ghost s0 = buf.remaining();
        proof {
            assert(s0.skip(0) =~= s0);
        }
        Ok(ClientboundPublicKeyRequestPacket { server_id: 0 })
    }
}

impl WakfuBufWritable for ClientboundPublicKeyRequestPacket {
    /// Writes nothing.
    open spec fn spec_write(&self) -> Seq<u8> {
        Seq::empty()
    }

    fn write_into(&self, buf: &mut Vec<u8>) {
        proof {
            assert(buf@ =~= old(buf)@ + Seq::<u8>::empty());
        }
    }
}

impl WakfuBufCodec for ClientboundPublicKeyRequestPacket {
    /// The server id is not in the encoding: only the default one reads back.
    open spec fn spec_encodable(&self) -> bool {
        self.server_id == 0
    }

    proof fn lemma_read_after_write(&self, rest: Seq<u8>) {
    }
}

impl ClientboundPacket for ClientboundPublicKeyRequestPacket {
    /// The server the request is addressed to.
    open spec fn spec_architecture_target(&self) -> u8 {
        self.server_id
    }

    fn architecture_target(&self) -> (target: u8) {
        self.server_id
    }
}

impl ClientboundPublicKeyRequestPacket {
    /// This packet as a packet of the connection state.
    pub fn get(self) -> (packet: ClientboundConnectionPacket)
        ensures
            packet.deep_view() == ClientboundConnectionPacketView::PublicKeyRequest(
                self.deep_view(),
            ),
    {
        ClientboundConnectionPacket::PublicKeyRequest(self)
    }

    /// Appends the encoding of this packet: nothing.
    pub fn write(&self, buf: &mut Vec<u8>)
        ensures
            final(buf)@ == old(buf)@ + self.spec_write(),
    {
        self.write_into(buf)
    }

    /// Reads this packet, as a packet of the connection state.
    pub fn read(buf: &mut ByteCursor) -> (r: Result<ClientboundConnectionPacket, BufReadError>)
        ensures
            final(buf).contents() == old(buf).contents(),
            final(buf).remaining() == old(buf).remaining(),
            final(buf).pos() == old(buf).pos(),
            r matches Ok(p) && p.deep_view() == ClientboundConnectionPacketView::PublicKeyRequest(
                0,
            ),
    {
        let ghost s0 = buf.remaining();
        proof {
            assert(s0.skip(0) =~= s0);
        }
        match Self::read_from(buf) {
            Ok(packet) => Ok(packet.get()),
            Err(e) => Err(e),
        }
    }
}

} // verus!
