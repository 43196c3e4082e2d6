//! The server's public key, with the salt that goes with it.
use super::{ServerboundConnectionPacket, ServerboundConnectionPacketView};
use crate::buf::codec::lemma_read_after_write_then;
use crate::buf::cursor::ByteCursor;
use crate::buf::error::BufReadError;
use crate::buf::read::WakfuBufReadable;
use crate::buf::write::{append_bytes, WakfuBufWritable};
use vstd::prelude::*;

verus! {

/// The key takes the rest of the packet: it has no length before it.
#[derive(Debug, Clone)]
pub struct ServerboundPublicKeyPacket {
    pub salt: i64,
    pub public_key: Vec<u8>,
}

impl DeepView for ServerboundPublicKeyPacket {
    type V = (i64, Seq<u8>);

    open spec fn deep_view(&self) -> (i64, Seq<u8>) {
        (self.salt, self.public_key@)
    }
}

impl WakfuBufReadable for ServerboundPublicKeyPacket {
    /// The salt, then every byte that is left as the key.
    open spec fn spec_read(bytes: Seq<u8>) -> Option<((i64, Seq<u8>), int)> {
        match i64::spec_read(bytes) {
            Some((salt, n)) => Some(((salt, bytes.skip(n)), bytes.len() as int)),
            None => None,
        }
    }

    open spec fn spec_read_error(bytes: Seq<u8>, e: BufReadError, moved: int) -> bool {
        i64::spec_read_error(bytes, e, moved)
    }

    proof fn lemma_spec_read_len(bytes: Seq<u8>) {
    }

    fn read_from(buf: &mut ByteCursor) -> (r: Result<Self, BufReadError>) {
        let ghost s0 = buf.remaining();
        let salt = match i64::read_from(buf) {
            Ok(salt) => salt,
            Err(e) => return Err(e),
        };
        let left = buf.remaining_len();
        let public_key = buf.take_bytes(left);
        proof {
            assert(public_key@ =~= s0.skip(8));
            assert(buf.remaining() =~= s0.skip(s0.len() as int));
        }
        Ok(ServerboundPublicKeyPacket { salt, public_key })
    }
}

impl WakfuBufWritable for ServerboundPublicKeyPacket {
    /// The salt, then the key's bytes.
    open spec fn spec_write(&self) -> Seq<u8> {
        self.salt.spec_write() + self.public_key@
    }

    fn write_into(&self, buf: &mut Vec<u8>) {
        self.salt.write_into(buf);
        append_bytes(buf, self.public_key.as_slice());
        proof {
            assert(buf@ =~= old(buf)@ + self.spec_write());
        }
    }
}

/// Reading the encoding of a public key packet, with nothing after it, gives
/// the packet back. Bytes after it would be read as part of the key.
pub proof fn lemma_public_key_read_after_write(packet: ServerboundPublicKeyPacket)
    ensures
        ServerboundPublicKeyPacket::spec_read(packet.spec_write()) == Some(
            (packet.deep_view(), packet.spec_write().len() as int),
        ),
{
    lemma_read_after_write_then(packet.salt, packet.public_key@);
}

impl ServerboundPublicKeyPacket {
    /// This packet as a packet of the connection state.
    pub fn get(self) -> (packet: ServerboundConnectionPacket)
        ensures
            packet.deep_view() == ServerboundConnectionPacketView::PublicKey(self.deep_view()),
    {
        ServerboundConnectionPacket::PublicKey(self)
    }

    /// Appends the encoding of this packet.
    pub fn write(&self, buf: &mut Vec<u8>)
        ensures
            final(buf)@ == old(buf)@ + self.spec_write(),
    {
        self.write_into(buf)
    }

    /// Reads this packet, as a packet of the connection state.
    pub fn read(buf: &mut ByteCursor) -> (r: Result<ServerboundConnectionPacket, BufReadError>)
        ensures
            final(buf).contents() == old(buf).contents(),
            (match Self::spec_read(old(buf).remaining()) {
                Some((v, n)) => r matches Ok(p) && p.deep_view()
                    == ServerboundConnectionPacketView::PublicKey(v) && final(buf).remaining()
                    == old(buf).remaining().skip(n) && final(buf).pos() == old(buf).pos() + n,
                None => r matches Err(e) && Self::spec_read_error(
                    old(buf).remaining(),
                    e,
                    final(buf).pos() - old(buf).pos(),
                ),
            }),
    {
        match Self::read_from(buf) {
            Ok(packet) => Ok(packet.get()),
            Err(e) => Err(e),
        }
    }
}

} // verus!
