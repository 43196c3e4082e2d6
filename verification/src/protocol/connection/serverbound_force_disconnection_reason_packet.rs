//! The server's reason for closing the connection.
use super::{ServerboundConnectionPacket, ServerboundConnectionPacketView};
use crate::buf::codec::{lemma_read_after_write_then, WakfuBufCodec};
use crate::buf::cursor::ByteCursor;
use crate::buf::error::BufReadError;
use crate::buf::read::WakfuBufReadable;
use crate::buf::write::WakfuBufWritable;
use vstd::prelude::*;

verus! {

#[derive(Debug, Clone)]
pub struct ServerboundForceDisconnectionReasonPacket {
    pub reason: u8,
}

impl DeepView for ServerboundForceDisconnectionReasonPacket {
    type V = u8;

    open spec fn deep_view(&self) -> u8 {
        self.reason.deep_view()
    }
}

impl WakfuBufReadable for ServerboundForceDisconnectionReasonPacket {
    open spec fn spec_read(bytes: Seq<u8>) -> Option<(u8, int)> {
        <u8>::spec_read(bytes)
    }

    open spec fn spec_read_error(bytes: Seq<u8>, e: BufReadError, moved: int) -> bool {
        <u8>::spec_read_error(bytes, e, moved)
    }

    proof fn lemma_spec_read_len(bytes: Seq<u8>) {
        <u8>::lemma_spec_read_len(bytes);
    }

    fn read_from(buf: &mut ByteCursor) -> (r: Result<Self, BufReadError>) {
        let reason = match <u8>::read_from(buf) {
            Ok(reason) => reason,
            Err(e) => return Err(e),
        };
        Ok(ServerboundForceDisconnectionReasonPacket { reason })
    }
}

impl WakfuBufWritable for ServerboundForceDisconnectionReasonPacket {
    open spec fn spec_write(&self) -> Seq<u8> {
        self.reason.spec_write()
    }

    fn write_into(&self, buf: &mut Vec<u8>) {
        self.reason.write_into(buf);
    }
}

impl WakfuBufCodec for ServerboundForceDisconnectionReasonPacket {
    open spec fn spec_encodable(&self) -> bool {
        true
    }

    proof fn lemma_read_after_write(&self, rest: Seq<u8>) {
        lemma_read_after_write_then(self.reason, rest);
    }
}

impl ServerboundForceDisconnectionReasonPacket {
    /// This packet as a packet of the connection state.
    pub fn get(self) -> (packet: ServerboundConnectionPacket)
        ensures
            packet.deep_view() == ServerboundConnectionPacketView::ForceDisconnectionReason(self.deep_view()),
    {
        ServerboundConnectionPacket::ForceDisconnectionReason(self)
    }

    /// Appends the encoding of this packet.
    pub fn write(&self, buf: &mut Vec<u8>)
        ensures
            final(buf)@ == old(buf)@ + self.spec_write(),
    {
        self.write_into(buf)
    }

    /// Reads this packet, as a packet of the connection state.
    pub fn read(buf: &mut ByteCursor) -> (r: Result<ServerboundConnectionPacket, BufReadError>)
        ensures
            final(buf).contents() == old(buf).contents(),
            (match Self::spec_read(old(buf).remaining()) {
                Some((v, n)) => r matches Ok(p) && p.deep_view()
                    == ServerboundConnectionPacketView::ForceDisconnectionReason(v) && final(buf).remaining()
                    == old(buf).remaining().skip(n) && final(buf).pos() == old(buf).pos() + n,
                None => r matches Err(e) && Self::spec_read_error(
                    old(buf).remaining(),
                    e,
                    final(buf).pos() - old(buf).pos(),
                ),
            }),
    {
        match Self::read_from(buf) {
            Ok(packet) => Ok(packet.get()),
            Err(e) => Err(e),
        }
    }
}


/// The message key that names a disconnection reason.
pub open spec fn spec_disconnection_reason_label(reason: u8) -> Seq<char> {
    if reason == 79 {
        "disconnection.spam"@
    } else if reason == 7 {
        "disconnection.timeout"@
    } else if reason == 52 {
        "disconnection.kickedByReco"@
    } else if reason == 50 {
        "disconnection.kickedByAdmin"@
    } else if reason == 14 || reason == 17 {
        "disconnection.accountBanned"@
    } else if reason == 49 {
        "disconnection.bannedByAdmin"@
    } else if reason == 4 {
        "disconnection.architectureNotReady"@
    } else if reason == 98 {
        "disconnection.sessionDestroyed"@
    } else if reason == 61 {
        "disconnection.remoteServerDoesNotAnswer"@
    } else if reason == 64 {
        "disconnection.serverShutdown"@
    } else if reason == 9 {
        "disconnection.invalidPosition"@
    } else if reason == 90 {
        "disconnection.openOfflineFlea"@
    } else if reason == 35 {
        "disconnection.serverError"@
    } else if reason == 33 {
        "disconnection.unknown"@
    } else if reason == 63 {
        "disconnection.synchronisationError"@
    } else if reason == 40 {
        "disconnection.serverFull"@
    } else if reason == 53 {
        "disconnection.timedSessionEnd"@
    } else {
        "connection.closed"@
    }
}

/// The message keys of the disconnection reasons: each known reason code has
/// its key, and every other code names a closed connection.
pub proof fn lemma_disconnection_reason_labels(reason: u8)
    ensures
        spec_disconnection_reason_label(79) == "disconnection.spam"@,
        spec_disconnection_reason_label(7) == "disconnection.timeout"@,
        spec_disconnection_reason_label(52) == "disconnection.kickedByReco"@,
        spec_disconnection_reason_label(50) == "disconnection.kickedByAdmin"@,
        spec_disconnection_reason_label(14) == "disconnection.accountBanned"@,
        spec_disconnection_reason_label(17) == "disconnection.accountBanned"@,
        spec_disconnection_reason_label(49) == "disconnection.bannedByAdmin"@,
        spec_disconnection_reason_label(4) == "disconnection.architectureNotReady"@,
        spec_disconnection_reason_label(98) == "disconnection.sessionDestroyed"@,
        spec_disconnection_reason_label(61) == "disconnection.remoteServerDoesNotAnswer"@,
        spec_disconnection_reason_label(64) == "disconnection.serverShutdown"@,
        spec_disconnection_reason_label(9) == "disconnection.invalidPosition"@,
        spec_disconnection_reason_label(90) == "disconnection.openOfflineFlea"@,
        spec_disconnection_reason_label(35) == "disconnection.serverError"@,
        spec_disconnection_reason_label(33) == "disconnection.unknown"@,
        spec_disconnection_reason_label(63) == "disconnection.synchronisationError"@,
        spec_disconnection_reason_label(40) == "disconnection.serverFull"@,
        spec_disconnection_reason_label(53) == "disconnection.timedSessionEnd"@,
        (reason != 79 && reason != 7 && reason != 52 && reason != 50 && reason != 14 && reason != 17 && reason != 49 && reason != 4 && reason != 98 && reason != 61 && reason != 64 && reason != 9 && reason != 90 && reason != 35 && reason != 33 && reason != 63 && reason != 40 && reason != 53) ==> spec_disconnection_reason_label(reason) == "connection.closed"@,
{
}

/// The message key that names a disconnection reason; an unknown reason is a
/// closed connection.
pub fn disconnection_reason_label(reason: u8) -> (label: &'static str)
    ensures
        label@ == spec_disconnection_reason_label(reason),
{
    match reason {
        79 => "disconnection.spam",
        7 => "disconnection.timeout",
        52 => "disconnection.kickedByReco",
        50 => "disconnection.kickedByAdmin",
        14 | 17 => "disconnection.accountBanned",
        49 => "disconnection.bannedByAdmin",
        4 => "disconnection.architectureNotReady",
        98 => "disconnection.sessionDestroyed",
        61 => "disconnection.remoteServerDoesNotAnswer",
        64 => "disconnection.serverShutdown",
        9 => "disconnection.invalidPosition",
        90 => "disconnection.openOfflineFlea",
        35 => "disconnection.serverError",
        33 => "disconnection.unknown",
        63 => "disconnection.synchronisationError",
        40 => "disconnection.serverFull",
        53 => "disconnection.timedSessionEnd",
        _ => "connection.closed",
    }
}

} // verus!
