//! The kinds of failure of a session.

use vstd::prelude::*;

verus! {

/// What went wrong on a connection.
#[derive(Clone, Copy, Debug, PartialEq, Eq, Structural)]
pub enum ErrorKind {
    /// The peer is gone, or reading or writing failed.
    Closed,
    /// Nothing arrived within the time allowed for a read.
    Timeout,
    /// A line of an encrypted session could not be decoded or decrypted.
    BadCrypto,
    /// A step of the handshake got a line that it does not expect.
    ProtocolViolation,
    /// A command broke a rule of the rooms.
    ValidationError,
}

impl ErrorKind {
    /// Whether the connection ends on this.
    pub open spec fn fatal(self) -> bool {
        self == ErrorKind::Closed || self == ErrorKind::BadCrypto
    }

    /// Whether the connection ends on this. A lost peer and a line that
    /// cannot be decrypted end it; a timeout, a bad handshake line and a
    /// refused command do not.
    pub fn is_fatal(&self) -> (r: bool)
        ensures
            r == self.fatal(),
    {
        match self {
            ErrorKind::Closed => true,
            ErrorKind::BadCrypto => true,
            ErrorKind::Timeout => false,
            ErrorKind::ProtocolViolation => false,
            ErrorKind::ValidationError => false,
        }
    }
}

} // verus!
