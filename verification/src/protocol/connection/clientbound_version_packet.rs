//! The client's announcement of its version.
use super::{ClientboundConnectionPacket, ClientboundConnectionPacketView};
use crate::buf::codec::{lemma_read_after_write_then, WakfuBufCodec};
use crate::buf::cursor::ByteCursor;
use crate::buf::error::BufReadError;
use crate::buf::read::{lemma_skip_skip, WakfuBufReadable};
use crate::buf::write::WakfuBufWritable;
use crate::protocol::packets::ClientboundPacket;
use vstd::prelude::*;
use vstd::utf8::encode_utf8;

verus! {

#[derive(Clone, Debug)]
pub struct ClientboundVersionPacket {
    pub major: u8,
    pub minor: u16,
    pub build_version: String,
}

impl DeepView for ClientboundVersionPacket {
    type V = (u8, u16, Seq<char>);

    open spec fn deep_view(&self) -> (u8, u16, Seq<char>) {
        (self.major, self.minor, self.build_version@)
    }
}

impl WakfuBufReadable for ClientboundVersionPacket {
    /// The major version, the minor version and the build string, in turn.
    open spec fn spec_read(bytes: Seq<u8>) -> Option<((u8, u16, Seq<char>), int)> {
        match u8::spec_read(bytes) {
            Some((major, n1)) => match u16::spec_read(bytes.skip(n1)) {
                Some((minor, n2)) => match String::spec_read(bytes.skip(n1).skip(n2)) {
                    Some((build_version, n3)) => Some(
                        ((major, minor, build_version), n1 + n2 + n3),
                    ),
                    None => None,
                },
                None => None,
            },
            None => None,
        }
    }

    open spec fn spec_read_error(bytes: Seq<u8>, e: BufReadError, moved: int) -> bool {
        match u8::spec_read(bytes) {
            Some((_, n1)) => match u16::spec_read(bytes.skip(n1)) {
                Some((_, n2)) => String::spec_read_error(
                    bytes.skip(n1).skip(n2),
                    e,
                    moved - n1 - n2,
                ),
                None => u16::spec_read_error(bytes.skip(n1), e, moved - n1),
            },
            None => u8::spec_read_error(bytes, e, moved),
        }
    }

    proof fn lemma_spec_read_len(bytes: Seq<u8>) {
        if let Some((_, n1)) = u8::spec_read(bytes) {
            if let Some((_, n2)) = u16::spec_read(bytes.skip(n1)) {
                String::lemma_spec_read_len(bytes.skip(n1).skip(n2));
            }
        }
    }

    fn read_from(buf: &mut ByteCursor) -> (r: Result<Self, BufReadError>) {
        let ghost s0 = buf.remaining();
        let major = match u8::read_from(buf) {
            Ok(major) => major,
            Err(e) => return Err(e),
        };
        let minor = match u16::read_from(buf) {
            Ok(minor) => minor,
            Err(e) => return Err(e),
        };
        let build_version = match String::read_from(buf) {
            Ok(build_version) => build_version,
            Err(e) => return Err(e),
        };
        proof {
            let s1 = s0.skip(1);
            let s2 = s1.skip(2);
            String::lemma_spec_read_len(s2);
            let n3 = String::spec_read(s2)->Some_0.1;
            lemma_skip_skip(s0, 1, 2);
            lemma_skip_skip(s0, 3, n3);
        }
        Ok(ClientboundVersionPacket { major, minor, build_version })
    }
}

impl WakfuBufWritable for ClientboundVersionPacket {
    open spec fn spec_write(&self) -> Seq<u8> {
        self.major.spec_write() + self.minor.spec_write() + self.build_version.spec_write()
    }

    fn write_into(&self, buf: &mut Vec<u8>) {
        self.major.write_into(buf);
        self.minor.write_into(buf);
        self.build_version.write_into(buf);
        proof {
            assert(buf@ =~= old(buf)@ + self.spec_write());
        }
    }
}

impl WakfuBufCodec for ClientboundVersionPacket {
    /// The build string fits a length byte.
    open spec fn spec_encodable(&self) -> bool {
        encode_utf8(self.build_version@).len() < 256
    }

    proof fn lemma_read_after_write(&self, rest: Seq<u8>) {
        let w1 = self.major.spec_write();
        let w2 = self.minor.spec_write();
        let w3 = self.build_version.spec_write();
        assert(self.spec_write() + rest =~= w1 + (w2 + (w3 + rest)));
        lemma_read_after_write_then(self.major, w2 + (w3 + rest));
        lemma_read_after_write_then(self.minor, w3 + rest);
        lemma_read_after_write_then(self.build_version, rest);
    }
}

impl ClientboundPacket for ClientboundVersionPacket {
    /// Addressed to the dispatch server, as the other packets of the
    /// connection phase are.
    open spec fn spec_architecture_target(&self) -> u8 {
        8
    }

    fn architecture_target(&self) -> (target: u8) {
        8
    }
}

impl ClientboundVersionPacket {
    /// This packet as a packet of the connection state.
    pub fn get(self) -> (packet: ClientboundConnectionPacket)
        ensures
            packet.deep_view() == ClientboundConnectionPacketView::Version(self.deep_view()),
    {
        ClientboundConnectionPacket::Version(self)
    }

    /// Appends the encoding of this packet.
    pub fn write(&self, buf: &mut Vec<u8>)
        ensures
            final(buf)@ == old(buf)@ + self.spec_write(),
    {
        self.write_into(buf)
    }

    /// Reads this packet, as a packet of the connection state.
    pub fn read(buf: &mut ByteCursor) -> (r: Result<ClientboundConnectionPacket, BufReadError>)
        ensures
            final(buf).contents() == old(buf).contents(),
            (match Self::spec_read(old(buf).remaining()) {
                Some((v, n)) => r matches Ok(p) && p.deep_view()
                    == ClientboundConnectionPacketView::Version(v) && final(buf).remaining()
                    == old(buf).remaining().skip(n) && final(buf).pos() == old(buf).pos() + n,
                None => r matches Err(e) && Self::spec_read_error(
                    old(buf).remaining(),
                    e,
                    final(buf).pos() - old(buf).pos(),
                ),
            }),
    {
        match Self::read_from(buf) {
            Ok(packet) => Ok(packet.get()),
            Err(e) => Err(e),
        }
    }
}

} // verus!
