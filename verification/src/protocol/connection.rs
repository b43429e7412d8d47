//! Receiving signals from a peer.

use vstd::prelude::*;

verus! {

/// Why receiving a signal failed.
#[derive(Debug, Clone, Copy, PartialEq, Eq, Structural)]
pub enum ReceivedStatus {
    /// "Malformed request".
    MalformedRequest,
    /// "Connection timed-out".
    Timeout,
    /// "IO Error".
    IOError,
}

/// How a read of the peer's stream ended.
pub enum ReadOutcome<S> {
    /// No data arrived before the connection's timeout.
    TimedOut,
    /// The read failed.
    Failed,
    /// Bytes arrived; they decoded to the signal, or did not decode.
    Received(Option<S>),
}

/// The outcome of receiving: the decoded signal, or why there is none.
pub fn classify_received<S>(outcome: ReadOutcome<S>) -> (r: Result<S, ReceivedStatus>)
    ensures
        outcome is TimedOut ==> r == Err::<S, ReceivedStatus>(ReceivedStatus::Timeout),
        outcome is Failed ==> r == Err::<S, ReceivedStatus>(ReceivedStatus::IOError),
        outcome matches ReadOutcome::Received(d) ==> match d {
            Some(s) => r == Ok::<S, ReceivedStatus>(s),
            None => r == Err::<S, ReceivedStatus>(ReceivedStatus::MalformedRequest),
        },
{
    match outcome {
        ReadOutcome::TimedOut => Err(ReceivedStatus::Timeout),
        ReadOutcome::Failed => Err(ReceivedStatus::IOError),
        ReadOutcome::Received(decoded) => match decoded {
            Some(s) => Ok(s),
            None => Err(ReceivedStatus::MalformedRequest),
        },
    }
}

/// The timeout of a read, in milliseconds.
pub const CONNECTION_TIMEOUT: u64 = 20000;

} // verus!
