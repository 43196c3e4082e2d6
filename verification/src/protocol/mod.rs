//! Packets of the protocol: their header, framing and contents.
pub mod connection;
pub mod packets;
pub mod read;
