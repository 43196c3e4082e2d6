//! The phases of logging in, as architecture targets of client packets.
use vstd::prelude::*;

verus! {

/// A login phase. Its constants are the architecture targets that address
/// client packets to the server of each phase.
pub struct LoginPhase(u8);

#[allow(non_upper_case_globals)]
impl LoginPhase {
    pub const SteamLink: u8 = 8;
    pub const Dispatch: u8 = 8;
    pub const Connection: u8 = 1;
    pub const Connected: u8 = 0;
}

} // verus!
