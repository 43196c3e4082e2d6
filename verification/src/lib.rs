//! Wire format of the Wakfu game protocol: a big-endian byte codec
//! (`buf`) and the packets and packet framing built on it (`protocol`).
pub mod agent;
pub mod buf;
pub mod login;
pub mod protocol;
