//! The errors an operation can end with.

use vstd::prelude::*;

verus! {

/// A failure reported by the byte transport itself, carried through unchanged.
///
/// `code` is the endpoint's own error number (for an operating-system pipe, the
/// raw OS error). The library never interprets it.
#[derive(Clone, Copy, Debug, PartialEq, Eq, Structural)]
pub struct TransportError {
    pub code: i32,
}

/// Why an encode or decode operation failed.
#[derive(Clone, Copy, Debug, PartialEq, Eq, Structural)]
pub enum Error {
    /// The transport failed; the payload is what it reported.
    Transport(TransportError),
    /// The stream ended before the bytes that the framing promised had arrived.
    UnexpectedEof,
    /// The bytes arrived in full but do not form a value: a discriminator other
    /// than 0 or 1, or a string payload that is not UTF-8.
    InvalidData,
    /// The writer accepted no byte of a non-empty write.
    WriteZero,
}

impl Error {
    /// A fixed, human-readable description of the error kind.
    pub fn message(&self) -> (s: &'static str)
        ensures
            s@ == (match *self {
                Error::Transport(_) => "transport error"@,
                Error::UnexpectedEof => "unexpected end of stream"@,
                Error::InvalidData => "invalid data"@,
                Error::WriteZero => "write zero"@,
            }),
    {
        match self {
            Error::Transport(_) => "transport error",
            Error::UnexpectedEof => "unexpected end of stream",
            Error::InvalidData => "invalid data",
            Error::WriteZero => "write zero",
        }
    }
}

} // verus!
