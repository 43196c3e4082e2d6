//! Reading and writing values in the protocol's big-endian byte encoding.
pub mod cursor;
pub mod endian;
pub mod error;
pub mod read;
pub mod write;
pub mod codec;
