//! The client's address as the server sees it.
use super::{ServerboundConnectionPacket, ServerboundConnectionPacketView};
use crate::buf::codec::{lemma_read_after_write_then, WakfuBufCodec};
use crate::buf::cursor::ByteCursor;
use crate::buf::error::BufReadError;
use crate::buf::read::{lemma_read_byte_run, WakfuBufReadable};
use crate::buf::write::{lemma_write_byte_run, WakfuBufWritable};
use vstd::prelude::*;

verus! {

#[derive(Debug, Clone)]
pub struct ServerboundClientIpPacket {
    pub ip: [u8; 4],
}

impl DeepView for ServerboundClientIpPacket {
    type V = Seq<u8>;

    open spec fn deep_view(&self) -> Seq<u8> {
        self.ip.deep_view()
    }
}

impl WakfuBufReadable for ServerboundClientIpPacket {
    open spec fn spec_read(bytes: Seq<u8>) -> Option<(Seq<u8>, int)> {
        <[u8; 4]>::spec_read(bytes)
    }

    open spec fn spec_read_error(bytes: Seq<u8>, e: BufReadError, moved: int) -> bool {
        <[u8; 4]>::spec_read_error(bytes, e, moved)
    }

    proof fn lemma_spec_read_len(bytes: Seq<u8>) {
        <[u8; 4]>::lemma_spec_read_len(bytes);
    }

    fn read_from(buf: &mut ByteCursor) -> (r: Result<Self, BufReadError>) {
        let ip = match <[u8; 4]>::read_from(buf) {
            Ok(ip) => ip,
            Err(e) => return Err(e),
        };
        Ok(ServerboundClientIpPacket { ip })
    }
}

impl WakfuBufWritable for ServerboundClientIpPacket {
    open spec fn spec_write(&self) -> Seq<u8> {
        self.ip.spec_write()
    }

    fn write_into(&self, buf: &mut Vec<u8>) {
        self.ip.write_into(buf);
    }
}

/// The body of a client address packet is its four address bytes, in order:
/// reading gives the first four bytes there are (none where there are fewer),
/// and writing gives the address's bytes.
pub proof fn lemma_client_ip_body(bytes: Seq<u8>, packet: ServerboundClientIpPacket)
    ensures
        bytes.len() >= 4 ==> ServerboundClientIpPacket::spec_read(bytes) == Some(
            (bytes.take(4), 4int),
        ),
        bytes.len() < 4 ==> ServerboundClientIpPacket::spec_read(bytes) is None,
        packet.spec_write() == packet.ip@,
        packet.deep_view() == packet.ip@,
{
    lemma_read_byte_run(bytes, 4);
    lemma_write_byte_run(packet.ip@);
    assert(packet.ip.deep_view() =~= packet.ip@);
}

impl WakfuBufCodec for ServerboundClientIpPacket {
    open spec fn spec_encodable(&self) -> bool {
        true
    }

    proof fn lemma_read_after_write(&self, rest: Seq<u8>) {
        lemma_read_after_write_then(self.ip, rest);
    }
}

impl ServerboundClientIpPacket {
    /// This packet as a packet of the connection state.
    pub fn get(self) -> (packet: ServerboundConnectionPacket)
        ensures
            packet.deep_view() == ServerboundConnectionPacketView::ClientIp(self.deep_view()),
    {
        ServerboundConnectionPacket::ClientIp(self)
    }

    /// Appends the encoding of this packet.
    pub fn write(&self, buf: &mut Vec<u8>)
        ensures
            final(buf)@ == old(buf)@ + self.spec_write(),
    {
        self.write_into(buf)
    }

    /// Reads this packet, as a packet of the connection state.
    pub fn read(buf: &mut ByteCursor) -> (r: Result<ServerboundConnectionPacket, BufReadError>)
        ensures
            final(buf).contents() == old(buf).contents(),
            (match Self::spec_read(old(buf).remaining()) {
                Some((v, n)) => r matches Ok(p) && p.deep_view()
                    == ServerboundConnectionPacketView::ClientIp(v) && final(buf).remaining()
                    == old(buf).remaining().skip(n) && final(buf).pos() == old(buf).pos() + n,
                None => r matches Err(e) && Self::spec_read_error(
                    old(buf).remaining(),
                    e,
                    final(buf).pos() - old(buf).pos(),
                ),
            }),
    {
        match Self::read_from(buf) {
            Ok(packet) => Ok(packet.get()),
            Err(e) => Err(e),
        }
    }
}

} // verus!
