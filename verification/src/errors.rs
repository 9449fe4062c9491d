//! The error taxonomy of the streaming session.

use vstd::prelude::*;

verus! {

/// Why a session operation or a streaming run failed.
#[derive(Clone, Copy, Debug, PartialEq, Eq, Structural)]
pub enum SessionError {
    /// The socket could not be opened, or a read or write on it failed,
    /// or the link closed while a stream was still in progress.
    ConnectionError,
    /// The firmware's reply was malformed, declared an unsupported
    /// protocol version, or acknowledged more bytes than were ever sent.
    ProtocolError,
    /// Pause was requested while no connection was installed.
    NoActiveSessionError,
    /// The wait for an acknowledgement frame outlasted its bound.
    TimeoutError,
}

} // verus!
