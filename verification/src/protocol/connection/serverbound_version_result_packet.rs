//! The server's answer to the client's version.
use super::{ServerboundConnectionPacket, ServerboundConnectionPacketView};
use crate::buf::codec::{lemma_read_after_write_then, WakfuBufCodec};
use crate::buf::cursor::ByteCursor;
use crate::buf::error::BufReadError;
use crate::buf::read::{lemma_skip_skip, WakfuBufReadable};
use crate::buf::endian::{be_encode, be_value};
use crate::buf::write::{spec_write_str, WakfuBufWritable};
use vstd::prelude::*;
use vstd::utf8::encode_utf8;

verus! {

#[derive(Debug, Clone)]
pub struct ServerboundVersionResultPacket {
    pub accepted: bool,
    pub major: u8,
    pub minor: u16,
    pub revision: u8,
    pub build_version: String,
}

impl DeepView for ServerboundVersionResultPacket {
    type V = (bool, u8, u16, u8, Seq<char>);

    open spec fn deep_view(&self) -> (bool, u8, u16, u8, Seq<char>) {
        (self.accepted, self.major, self.minor, self.revision, self.build_version@)
    }
}

impl WakfuBufReadable for ServerboundVersionResultPacket {
    /// The acceptance flag, the major version, the minor version, the
    /// revision and the build string, in turn.
    open spec fn spec_read(bytes: Seq<u8>) -> Option<((bool, u8, u16, u8, Seq<char>), int)> {
        match bool::spec_read(bytes) {
            Some((accepted, n1)) => match u8::spec_read(bytes.skip(n1)) {
                Some((major, n2)) => match u16::spec_read(bytes.skip(n1).skip(n2)) {
                    Some((minor, n3)) => match u8::spec_read(bytes.skip(n1).skip(n2).skip(n3)) {
                        Some((revision, n4)) => match String::spec_read(
                            bytes.skip(n1).skip(n2).skip(n3).skip(n4),
                        ) {
                            Some((build_version, n5)) => Some(
                                (
                                    (accepted, major, minor, revision, build_version),
                                    n1 + n2 + n3 + n4 + n5,
                                ),
                            ),
                            None => None,
                        },
                        None => None,
                    },
                    None => None,
                },
                None => None,
            },
            None => None,
        }
    }

    open spec fn spec_read_error(bytes: Seq<u8>, e: BufReadError, moved: int) -> bool {
        match bool::spec_read(bytes) {
            Some((_, n1)) => match u8::spec_read(bytes.skip(n1)) {
                Some((_, n2)) => match u16::spec_read(bytes.skip(n1).skip(n2)) {
                    Some((_, n3)) => match u8::spec_read(bytes.skip(n1).skip(n2).skip(n3)) {
                        Some((_, n4)) => String::spec_read_error(
                            bytes.skip(n1).skip(n2).skip(n3).skip(n4),
                            e,
                            moved - n1 - n2 - n3 - n4,
                        ),
                        None => u8::spec_read_error(
                            bytes.skip(n1).skip(n2).skip(n3),
                            e,
                            moved - n1 - n2 - n3,
                        ),
                    },
                    None => u16::spec_read_error(bytes.skip(n1).skip(n2), e, moved - n1 - n2),
                },
                None => u8::spec_read_error(bytes.skip(n1), e, moved - n1),
            },
            None => bool::spec_read_error(bytes, e, moved),
        }
    }

    proof fn lemma_spec_read_len(bytes: Seq<u8>) {
        if bytes.len() >= 5 {
            String::lemma_spec_read_len(bytes.skip(1).skip(1).skip(2).skip(1));
        }
    }

    fn read_from(buf: &mut ByteCursor) -> (r: Result<Self, BufReadError>) {
        let ghost s0 = buf.remaining();
        let accepted = match bool::read_from(buf) {
            Ok(accepted) => accepted,
            Err(e) => return Err(e),
        };
        let major = match u8::read_from(buf) {
            Ok(major) => major,
            Err(e) => return Err(e),
        };
        let minor = match u16::read_from(buf) {
            Ok(minor) => minor,
            Err(e) => return Err(e),
        };
        let revision = match u8::read_from(buf) {
            Ok(revision) => revision,
            Err(e) => return Err(e),
        };
        let build_version = match String::read_from(buf) {
            Ok(build_version) => build_version,
            Err(e) => return Err(e),
        };
        proof {
            let s4 = s0.skip(1).skip(1).skip(2).skip(1);
            String::lemma_spec_read_len(s4);
            let n5 = String::spec_read(s4)->Some_0.1;
            lemma_skip_skip(s0, 1, 1);
            lemma_skip_skip(s0, 2, 2);
            lemma_skip_skip(s0, 4, 1);
            lemma_skip_skip(s0, 5, n5);
        }
        Ok(ServerboundVersionResultPacket { accepted, major, minor, revision, build_version })
    }
}

impl WakfuBufWritable for ServerboundVersionResultPacket {
    open spec fn spec_write(&self) -> Seq<u8> {
        self.accepted.spec_write() + self.major.spec_write() + self.minor.spec_write()
            + self.revision.spec_write() + self.build_version.spec_write()
    }

    fn write_into(&self, buf: &mut Vec<u8>) {
        self.accepted.write_into(buf);
        self.major.write_into(buf);
        self.minor.write_into(buf);
        self.revision.write_into(buf);
        self.build_version.write_into(buf);
        proof {
            assert(buf@ =~= old(buf)@ + self.spec_write());
        }
    }
}

/// The body of a version result is its fields in declaration order: the
/// acceptance byte (any non-zero byte is acceptance), the major version byte,
/// the minor version in two bytes, most significant first, the revision byte,
/// and the build string. Fewer than five bytes hold no version result.
pub proof fn lemma_version_result_body(bytes: Seq<u8>, packet: ServerboundVersionResultPacket)
    ensures
        bytes.len() >= 5 ==> ServerboundVersionResultPacket::spec_read(bytes) == match String::spec_read(
            bytes.skip(5),
        ) {
            Some((build_version, n)) => Some(
                (
                    (
                        bytes[0] != 0,
                        bytes[1],
                        (bytes[2] * 256 + bytes[3]) as u16,
                        bytes[4],
                        build_version,
                    ),
                    5 + n,
                ),
            ),
            None => None,
        },
        bytes.len() < 5 ==> ServerboundVersionResultPacket::spec_read(bytes) is None,
        packet.spec_write() == seq![
            if packet.accepted {
                1u8
            } else {
                0u8
            },
            packet.major,
            (packet.minor / 256) as u8,
            (packet.minor % 256) as u8,
            packet.revision,
        ] + spec_write_str(packet.build_version@),
{
    reveal_with_fuel(be_value, 3);
    reveal_with_fuel(be_encode, 3);
    if bytes.len() >= 5 {
        assert(bytes.skip(1).skip(1).take(2) =~= seq![bytes[2], bytes[3]]);
        assert(seq![bytes[2], bytes[3]].drop_last() =~= seq![bytes[2]]);
        assert(seq![bytes[2]].drop_last() =~= Seq::<u8>::empty());
        assert(bytes.skip(1).skip(1).skip(2).skip(1) =~= bytes.skip(5));
    }
    let m = packet.minor as nat;
    assert(be_encode(m, 2) =~= seq![(m / 256) as u8, (m % 256) as u8]);
    assert(packet.spec_write() =~= seq![
        if packet.accepted {
            1u8
        } else {
            0u8
        },
        packet.major,
        (packet.minor / 256) as u8,
        (packet.minor % 256) as u8,
        packet.revision,
    ] + spec_write_str(packet.build_version@));
}

impl WakfuBufCodec for ServerboundVersionResultPacket {
    /// The build string fits a length byte.
    open spec fn spec_encodable(&self) -> bool {
        encode_utf8(self.build_version@).len() < 256
    }

    proof fn lemma_read_after_write(&self, rest: Seq<u8>) {
        let w1 = self.accepted.spec_write();
        let w2 = self.major.spec_write();
        let w3 = self.minor.spec_write();
        let w4 = self.revision.spec_write();
        let w5 = self.build_version.spec_write();
        assert(self.spec_write() + rest =~= w1 + (w2 + (w3 + (w4 + (w5 + rest)))));
        lemma_read_after_write_then(self.accepted, w2 + (w3 + (w4 + (w5 + rest))));
        lemma_read_after_write_then(self.major, w3 + (w4 + (w5 + rest)));
        lemma_read_after_write_then(self.minor, w4 + (w5 + rest));
        lemma_read_after_write_then(self.revision, w5 + rest);
        lemma_read_after_write_then(self.build_version, rest);
    }
}

impl ServerboundVersionResultPacket {
    /// This packet as a packet of the connection state.
    pub fn get(self) -> (packet: ServerboundConnectionPacket)
        ensures
            packet.deep_view() == ServerboundConnectionPacketView::VersionResult(self.deep_view()),
    {
        ServerboundConnectionPacket::VersionResult(self)
    }

    /// Appends the encoding of this packet.
    pub fn write(&self, buf: &mut Vec<u8>)
        ensures
            final(buf)@ == old(buf)@ + self.spec_write(),
    {
        self.write_into(buf)
    }

    /// Reads this packet, as a packet of the connection state.
    pub fn read(buf: &mut ByteCursor) -> (r: Result<ServerboundConnectionPacket, BufReadError>)
        ensures
            final(buf).contents() == old(buf).contents(),
            (match Self::spec_read(old(buf).remaining()) {
                Some((v, n)) => r matches Ok(p) && p.deep_view()
                    == ServerboundConnectionPacketView::VersionResult(v) && final(buf).remaining()
                    == old(buf).remaining().skip(n) && final(buf).pos() == old(buf).pos() + n,
                None => r matches Err(e) && Self::spec_read_error(
                    old(buf).remaining(),
                    e,
                    final(buf).pos() - old(buf).pos(),
                ),
            }),
    {
        match Self::read_from(buf) {
            Ok(packet) => Ok(packet.get()),
            Err(e) => Err(e),
        }
    }
}

} // verus!
