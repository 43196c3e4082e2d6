//! What can go wrong while reading the codec.
use vstd::prelude::*;

verus! {

/// The kind of input/output failure behind a read error. An in-memory
/// buffer fails only by running out of bytes; a connection may fail otherwise.
#[derive(Debug, Clone, Copy, PartialEq, Eq, Structural)]
pub enum IoErrorKind {
    /// The buffer ended before the value did.
    UnexpectedEof,
    /// Any other failure of a connection.
    Other,
}

/// A failed read of a value.
#[derive(Debug)]
pub enum BufReadError {
    CouldNotReadBytes,
    /// A fixed-size read (an integer) ran past the end of the buffer.
    Io { kind: IoErrorKind },
    /// The bytes of a string are not UTF-8; `lossy` is their lossy decoding.
    InvalidUtf8 { bytes: Vec<u8>, lossy: String },
    /// A run of `attempted_read` bytes was asked for where only `actual_read` were left.
    UnexpectedEof { attempted_read: usize, actual_read: usize },
}

/// `e` is the error of an integer read that ran out of bytes.
pub open spec fn is_eof_io_error(e: BufReadError) -> bool {
    e matches BufReadError::Io { kind: IoErrorKind::UnexpectedEof }
}

} // verus!
