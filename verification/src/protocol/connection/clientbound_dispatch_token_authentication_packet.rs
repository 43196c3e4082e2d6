//! The client's encrypted authentication token, for the dispatch server.
use crate::buf::codec::{WakfuBufCodec, lemma_read_after_write_then};
use crate::buf::cursor::ByteCursor;
use crate::buf::error::BufReadError;
use crate::buf::read::WakfuBufReadable;
use crate::buf::write::WakfuBufWritable;
use crate::protocol::packets::ClientboundPacket;
use vstd::prelude::*;

verus! {

/// Addressed to the dispatch server.
#[derive(Clone, Debug)]
pub struct ClientboundDispatchTokenAuthenticationPacket {
    pub encrypted_token: Vec<u8>,
}

impl DeepView for ClientboundDispatchTokenAuthenticationPacket {
    type V = Seq<u8>;

    open spec fn deep_view(&self) -> Seq<u8> {
        self.encrypted_token.deep_view()
    }
}

impl WakfuBufReadable for ClientboundDispatchTokenAuthenticationPacket {
    /// A length byte, then that many bytes.
    open spec fn spec_read(bytes: Seq<u8>) -> Option<(Seq<u8>, int)> {
        Vec::<u8>::spec_read(bytes)
    }

    open spec fn spec_read_error(bytes: Seq<u8>, e: BufReadError, moved: int) -> bool {
        Vec::<u8>::spec_read_error(bytes, e, moved)
    }

    proof fn lemma_spec_read_len(bytes: Seq<u8>) {
        Vec::<u8>::lemma_spec_read_len(bytes);
    }

    fn read_from(buf: &mut ByteCursor) -> (r: Result<Self, BufReadError>) {
        let encrypted_token = match Vec::<u8>::read_from(buf) {
            Ok(encrypted_token) => encrypted_token,
            Err(e) => return Err(e),
        };
        Ok(ClientboundDispatchTokenAuthenticationPacket { encrypted_token })
    }
}

impl WakfuBufWritable for ClientboundDispatchTokenAuthenticationPacket {
    open spec fn spec_write(&self) -> Seq<u8> {
        self.encrypted_token.spec_write()
    }

    fn write_into(&self, buf: &mut Vec<u8>) {
        self.encrypted_token.write_into(buf);
    }
}

impl WakfuBufCodec for ClientboundDispatchTokenAuthenticationPacket {
    /// At most 255 bytes.
    open spec fn spec_encodable(&self) -> bool {
        self.encrypted_token.spec_encodable()
    }

    proof fn lemma_read_after_write(&self, rest: Seq<u8>) {
        lemma_read_after_write_then(self.encrypted_token, rest);
    }
}

impl ClientboundPacket for ClientboundDispatchTokenAuthenticationPacket {
    open spec fn spec_architecture_target(&self) -> u8 {
        8
    }

    fn architecture_target(&self) -> (target: u8) {
        8
    }
}

} // verus!
