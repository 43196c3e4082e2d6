//! The client's encrypted credentials, for the dispatch server.
use crate::buf::codec::{WakfuBufCodec, lemma_read_after_write_then};
use crate::buf::cursor::ByteCursor;
use crate::buf::error::BufReadError;
use crate::buf::read::WakfuBufReadable;
use crate::buf::write::WakfuBufWritable;
use crate::protocol::packets::ClientboundPacket;
use vstd::prelude::*;

verus! {

/// Addressed to the dispatch server.
#[derive(Clone, Debug)]
pub struct ClientboundDispatchCredentialsAuthenticationPacket {
    pub encrypted_credentials: Vec<u8>,
}

impl DeepView for ClientboundDispatchCredentialsAuthenticationPacket {
    type V = Seq<u8>;

    open spec fn deep_view(&self) -> Seq<u8> {
        self.encrypted_credentials.deep_view()
    }
}

impl WakfuBufReadable for ClientboundDispatchCredentialsAuthenticationPacket {
    /// A length byte, then that many bytes.
    open spec fn spec_read(bytes: Seq<u8>) -> Option<(Seq<u8>, int)> {
        Vec::<u8>::spec_read(bytes)
    }

    open spec fn spec_read_error(bytes: Seq<u8>, e: BufReadError, moved: int) -> bool {
        Vec::<u8>::spec_read_error(bytes, e, moved)
    }

    proof fn lemma_spec_read_len(bytes: Seq<u8>) {
        Vec::<u8>::lemma_spec_read_len(bytes);
    }

    fn read_from(buf: &mut ByteCursor) -> (r: Result<Self, BufReadError>) {
        let encrypted_credentials = match Vec::<u8>::read_from(buf) {
            Ok(encrypted_credentials) => encrypted_credentials,
            Err(e) => return Err(e),
        };
        Ok(ClientboundDispatchCredentialsAuthenticationPacket { encrypted_credentials })
    }
}

impl WakfuBufWritable for ClientboundDispatchCredentialsAuthenticationPacket {
    open spec fn spec_write(&self) -> Seq<u8> {
        self.encrypted_credentials.spec_write()
    }

    fn write_into(&self, buf: &mut Vec<u8>) {
        self.encrypted_credentials.write_into(buf);
    }
}

impl WakfuBufCodec for ClientboundDispatchCredentialsAuthenticationPacket {
    /// At most 255 bytes.
    open spec fn spec_encodable(&self) -> bool {
        self.encrypted_credentials.spec_encodable()
    }

    proof fn lemma_read_after_write(&self, rest: Seq<u8>) {
        lemma_read_after_write_then(self.encrypted_credentials, rest);
    }
}

impl ClientboundPacket for ClientboundDispatchCredentialsAuthenticationPacket {
    open spec fn spec_architecture_target(&self) -> u8 {
        8
    }

    fn architecture_target(&self) -> (target: u8) {
        8
    }
}

} // verus!
