//! Core of a reverse port-forwarder: a single long-lived control link
//! (TCP or serial) carries many tunneled TCP channels as framed messages.
//!
//! This crate holds the verified logic: the wire codec, the buffered
//! socket-adapter state machine with its penalty accounting, and the
//! control-loop dispatch for both peers.  Real sockets live outside; the
//! library decides, the caller performs the I/O it is told to and reports
//! the outcome back.

use vstd::prelude::*;

pub mod connection;
pub mod control;
pub mod handshake;
pub mod packet;
pub mod socket_adapter;

verus! {

/// Result classification for one I/O attempt, mirroring the error kinds
/// the protocol logic distinguishes.  The caller converts its platform
/// errors into this type.
#[derive(Clone, Copy, Debug, PartialEq, Eq, Structural)]
pub enum IoErrorKind {
    WouldBlock,
    TimedOut,
    Interrupted,
    UnexpectedEof,
    ConnectionAborted,
    Other,
}

/// Normalise a transient no-progress error: `WouldBlock` and `TimedOut`
/// become `Ok(None)`, success becomes `Ok(Some(_))`, anything else stays
/// an error.
pub fn io_sync<T>(result: Result<T, IoErrorKind>) -> (r: Result<Option<T>, IoErrorKind>)
    ensures
        match result {
            Ok(x) => r == Ok::<Option<T>, IoErrorKind>(Some(x)),
            Err(k) => if k == IoErrorKind::WouldBlock || k == IoErrorKind::TimedOut {
                r == Ok::<Option<T>, IoErrorKind>(None::<T>)
            } else {
                r == Err::<Option<T>, IoErrorKind>(k)
            },
        },
{
    match result {
        Ok(x) => Ok(Some(x)),
        Err(IoErrorKind::WouldBlock) => Ok(None),
        Err(IoErrorKind::TimedOut) => Ok(None),
        Err(x) => Err(x),
    }
}

} // verus!
