//! The library's error type.

use vstd::prelude::*;
use crate::protocol::connection::ReceivedStatus;
use crate::protocol::signal::SubsignalError;

verus! {

/// Why an operation of the library was refused.
#[derive(Debug, Clone, Copy, PartialEq, Eq)]
pub enum Error {
    /// A checksum does not match the data it covers ("Data is corrupted!").
    Corrupted,
    /// A keyed hash does not match its data ("Payload's integrity compromised").
    IntegrityCompromised,
    /// Bytes that should hold an encoded value do not.
    Malformed,
    /// Text that should be base64 is not.
    InvalidBase64,
    /// Decompression of a compressed buffer failed.
    DecompressionFailed,
    /// A payload that is encrypted was read, or encrypted again.
    AlreadyEncrypted,
    /// A payload that is not encrypted was decrypted.
    NotEncrypted,
    /// A signature does not verify ("Invalid signature").
    InvalidSignature,
    /// A subsignal arrived with an unexpected height ("Invalid height!").
    InvalidHeight,
    /// A signal that carries no subsignal was opened as one.
    NotASubsignal,
    /// A key of the wrong length ("Invalid size!").
    InvalidSize,
    /// A stored value is missing ("Key doesn't exist!").
    MissingKey,
    /// A peer's CSIDH key is no CSIDH-512 public key.
    InvalidPublicKey,
    /// A one-time key was sent without its secret counterpart, or the other
    /// way round ("One time key unexpected").
    UnexpectedOneTime,
    /// A client asked for its user id before authenticating ("User id is not defined!").
    UserIdUndefined,
    /// A client tried to authenticate before a random payload was generated
    /// ("Cannot authenticate before generating a random payload!").
    NoRandomPayload,
    /// The peer reported an error in a subsignal.
    Peer(SubsignalError),
    /// A subsignal arrived before the handshake ("Handshake hasn't been done!").
    NotHandshaked,
    /// A second handshake arrived ("Handshake has already been done!").
    AlreadyHandshaked,
    /// The peer invalidated the stream with a signal error, or a subsignal
    /// arrived on a connection that never shook hands.
    Invalidated,
    /// The peer announced that it disconnects ("Server disconnected!").
    Disconnected,
    /// A reply too large to encrypt under one key stream.
    TooLarge,
    /// No signal could be received.
    Received(ReceivedStatus),
}

} // verus!
