//! What can go wrong while reading a packet.
use crate::buf::error::{BufReadError, IoErrorKind};
use vstd::prelude::*;

verus! {

/// A failed read of a packet.
#[derive(Debug)]
pub enum ReadPacketError {
    /// The body of the packet with this id and name did not decode.
    Parse { packet_id: u16, packet_name: String, source: BufReadError },
    /// No packet of the named state has this id.
    UnknownPacketId { state_name: String, id: u16 },
    /// The header did not decode.
    ReadPacketId { source: BufReadError },
    /// Bytes were left after the body of the named packet.
    LeftoverData { data: Vec<u8>, packet_name: String },
    /// The connection failed.
    IoError { kind: IoErrorKind },
    /// The connection was closed.
    ConnectionClosed,
}

} // verus!
