//! The client side of a connection: the handshake with the server and what
//! the client does with each signal it receives.

use vstd::prelude::*;
use crate::checksum::Checksumed;
use crate::crypt::KEYSTREAM_LIMIT;
use crate::encoding::{copy_bytes, Encode};
use crate::error::Error;
use crate::exchange::{x25519_shared, Exchangeable, PKEcdh, SKEcdh, SSEcdh};
use crate::identity::{PKIdentity, Signed};
use crate::protocol::signal::{Height, Signal, Subsignal, SubsignalError, SubsignalModel};
use crate::server::client::{ClientSignal, Opened, ServerSignal};

verus! {

/// Where the handshake stands: the client's key pair while it waits for the
/// server's key, then the shared secret.
pub enum Handshake {
    Awaiting(SKEcdh),
    Agreed(SSEcdh),
}

/// A client's session with the server.
pub struct Session {
    pub auth: bool,
    pub height: Height,
    pub shared_secret: Handshake,
}

impl Session {
    /// Starts a session: generates the client's key pair and the handshake
    /// signal that carries its public key.
    pub fn new() -> (r: (Session, ClientSignal))
        ensures
            !r.0.auth,
            r.0.height.receiving == 0 && r.0.height.sending == 0,
            r.0.shared_secret matches Handshake::Awaiting(sk) && sk.well_formed()
                && (r.1 matches Signal::Handshake(c) && c.data.0 == sk.0 && c.is_intact()),
    {
        let sk_exchange = SKEcdh::new();
        let handshake = match Checksumed::new(sk_exchange.pk_exchange()) {
            Ok(c) => c,
            Err(_) => {
                proof {
                    assert(false);
                }
                Checksumed { data: sk_exchange.pk_exchange(), checksum: 0 }
            },
        };
        (Session { auth: false, height: Height::new(), shared_secret: Handshake::Awaiting(sk_exchange) }, Signal::Handshake(handshake))
    }

    /// The client's key pair, while the handshake is pending ("Exchange keys
    /// aren't longer available as handshake has already been done!").
    pub fn sk_exchange(&self) -> (r: Result<SKEcdh, Error>)
        ensures
            self.shared_secret matches Handshake::Awaiting(sk) ==> r == Ok::<SKEcdh, Error>(sk),
            self.shared_secret is Agreed ==> r == Err::<SKEcdh, Error>(Error::AlreadyHandshaked),
    {
        match &self.shared_secret {
            Handshake::Awaiting(sk) => Ok(*sk),
            Handshake::Agreed(_) => Err(Error::AlreadyHandshaked),
        }
    }

    /// The shared secret, once the handshake is done ("Handshake hasn't been done!").
    pub fn shared_secret(&self) -> (r: Result<SSEcdh, Error>)
        ensures
            self.shared_secret matches Handshake::Agreed(s) ==> (r matches Ok(t) && t@ == s@),
            self.shared_secret is Awaiting ==> r == Err::<SSEcdh, Error>(Error::NotHandshaked),
    {
        match &self.shared_secret {
            Handshake::Agreed(s) => Ok(copy_bytes(s)),
            Handshake::Awaiting(_) => Err(Error::NotHandshaked),
        }
    }
}

/// The client's connection to the server: its session.
pub struct Connection {
    pub session: Session,
}

impl Connection {
    /// Starts a connection: a new session, and the handshake signal to send.
    pub fn new() -> (r: (Connection, ClientSignal))
        ensures
            !r.0.session.auth,
            r.0.session.height.receiving == 0 && r.0.session.height.sending == 0,
            r.0.session.shared_secret matches Handshake::Awaiting(sk) && sk.well_formed()
                && (r.1 matches Signal::Handshake(c) && c.data.0 == sk.0 && c.is_intact()),
    {
        let (session, handshake) = Session::new();
        (Connection { session }, handshake)
    }

    /// Handles a signal from the server. Returns the signal to send back, if
    /// any, and the outcome; an `Err` outcome ends the connection.
    ///
    /// A handshake is accepted once: its checksum and the server's signature
    /// under `server_identity` must hold, and the shared secret becomes the
    /// X25519 secret of the client's key pair and the server's key. A second
    /// handshake is answered with an `AlreadyHandshaked` error subsignal and
    /// refused. A subsignal needs the handshake, the next height and an intact
    /// encryption; content comes out as the serialized value for the caller,
    /// an error or a disconnection from the server ends the connection, as
    /// does a signal error.
    pub fn handle_signal(&mut self, server_identity: &PKIdentity, signal: ServerSignal)
        -> (r: (Option<ClientSignal>, Result<Option<Opened>, Error>))
        requires
            old(self).session.height.receiving < u128::MAX,
            old(self).session.height.sending < u128::MAX,
            signal.ciphertext_len() <= KEYSTREAM_LIMIT,
        ensures
            final(self).session.auth == old(self).session.auth,
            signal is Error ==> r.0 is None && r.1 == Err::<Option<Opened>, Error>(Error::Invalidated)
                && final(self).session == old(self).session,
            signal is Handshake && old(self).session.shared_secret is Agreed ==> r.1 == Err::<Option<Opened>, Error>(Error::AlreadyHandshaked)
                && (r.0 matches Some(s) && s.is_subsignal() && s.height() == old(self).session.height.sending && s.subsignal_intact()
                    && s.opened(old(self).session.shared_secret->Agreed_0@)
                        == Subsignal::spec_encode(SubsignalModel::Error(SubsignalError::AlreadyHandshaked)))
                && final(self).session.shared_secret == old(self).session.shared_secret
                && final(self).session.height.sending == old(self).session.height.sending + 1
                && final(self).session.height.receiving == old(self).session.height.receiving,
            signal is Handshake && old(self).session.shared_secret is Awaiting ==> final(self).session.height == old(self).session.height
                && (r.1 is Err ==> final(self).session == old(self).session),
            signal matches Signal::Handshake(c) ==> (old(self).session.shared_secret matches Handshake::Awaiting(sk) ==> (r.0 is None
                && (!c.is_intact() ==> r.1 == Err::<Option<Opened>, Error>(Error::Corrupted))
                && (c.is_intact() && !c.data.signed_by(server_identity.0@) ==> r.1 == Err::<Option<Opened>, Error>(Error::InvalidSignature))
                && (c.is_intact() && c.data.signed_by(server_identity.0@) ==> (r.1 matches Ok(None)
                    && (final(self).session.shared_secret matches Handshake::Agreed(s)
                    && s@ == x25519_shared(sk.1@, c.data.0.0@)))))),
            signal is Subsignal && old(self).session.shared_secret is Awaiting ==> r.0 is None
                && r.1 == Err::<Option<Opened>, Error>(Error::NotHandshaked) && final(self).session == old(self).session,
            signal is Subsignal && old(self).session.shared_secret is Agreed && signal.height() != old(self).session.height.receiving
                ==> r.0 is None && r.1 == Err::<Option<Opened>, Error>(Error::InvalidHeight) && final(self).session == old(self).session,
            signal is Subsignal && old(self).session.shared_secret is Agreed && signal.height() == old(self).session.height.receiving
                ==> final(self).session.height.receiving == old(self).session.height.receiving + 1
                && final(self).session.height.sending == old(self).session.height.sending
                && final(self).session.shared_secret == old(self).session.shared_secret,
            signal is Subsignal && old(self).session.shared_secret is Agreed && signal.height() == old(self).session.height.receiving
                && !signal.subsignal_intact() ==> r.0 is None && r.1 == Err::<Option<Opened>, Error>(Error::Corrupted),
            signal is Subsignal && old(self).session.shared_secret is Agreed && signal.height() == old(self).session.height.receiving
                && signal.subsignal_intact()
                && (forall|v: SubsignalModel| #[trigger] Subsignal::spec_encode(v) != signal.opened(old(self).session.shared_secret->Agreed_0@))
                ==> r.1 == Err::<Option<Opened>, Error>(Error::Malformed),
            signal is Subsignal ==> r.0 is None,
            signal is Subsignal && r.1 is Err ==> r.1 == Err::<Option<Opened>, Error>(Error::NotHandshaked)
                || r.1 == Err::<Option<Opened>, Error>(Error::InvalidHeight)
                || r.1 == Err::<Option<Opened>, Error>(Error::Corrupted)
                || r.1 == Err::<Option<Opened>, Error>(Error::Malformed)
                || r.1 == Err::<Option<Opened>, Error>(Error::DecompressionFailed)
                || r.1 == Err::<Option<Opened>, Error>(Error::Invalidated)
                || r.1 == Err::<Option<Opened>, Error>(Error::Disconnected),
            signal is Subsignal && old(self).session.shared_secret is Agreed && signal.height() == old(self).session.height.receiving
                && signal.subsignal_intact() ==> r.0 is None && forall|v: SubsignalModel|
                    #[trigger] Subsignal::spec_encode(v) == signal.opened(old(self).session.shared_secret->Agreed_0@) ==> match v {
                        SubsignalModel::Content(c) => match crate::compress::lz4_decompress(c) {
                            Some(b) => (r.1 matches Ok(Some(Opened::Request(q))) && q@ == b),
                            None => r.1 == Err::<Option<Opened>, Error>(Error::DecompressionFailed),
                        },
                        SubsignalModel::Error(_) => r.1 == Err::<Option<Opened>, Error>(Error::Invalidated),
                        SubsignalModel::Disconnect => r.1 == Err::<Option<Opened>, Error>(Error::Disconnected),
                    },
    {
        match signal {
            Signal::Handshake(checksumed) => {
                let sk_exchange = match &self.session.shared_secret {
                    Handshake::Awaiting(sk) => *sk,
                    Handshake::Agreed(secret) => {
                        proof {
                            crate::protocol::signal::lemma_error_encoding_small(SubsignalError::AlreadyHandshaked);
                        }
                        let height = self.session.height.sending();
                        let reply = match Subsignal::Error(SubsignalError::AlreadyHandshaked).sugar::<PKEcdh>(secret.as_slice(), height) {
                            Ok(s) => s,
                            Err(e) => return (None, Err(e)),
                        };
                        return (Some(reply), Err(Error::AlreadyHandshaked));
                    },
                };
                let signed = match checksumed.take() {
                    Ok(s) => s,
                    Err(e) => return (None, Err(e)),
                };
                let pk_exchange = match signed.take(server_identity) {
                    Ok(pk) => pk,
                    Err(e) => return (None, Err(e)),
                };
                self.session.shared_secret = Handshake::Agreed(sk_exchange.get_secret(&pk_exchange));
                (None, Ok(None))
            },
            Signal::Subsignal(height, body) => {
                let shared_secret = match self.session.shared_secret() {
                    Ok(s) => s,
                    Err(e) => return (None, Err(e)),
                };
                match self.session.height.receiving(height) {
                    Ok(()) => {},
                    Err(e) => return (None, Err(e)),
                }
                let subsignal = match Signal::<Signed<PKEcdh>>::Subsignal(height, body).desugar(shared_secret.as_slice()) {
                    Ok(s) => s,
                    Err(e) => return (None, Err(e)),
                };
                match subsignal {
                    Subsignal::Content(content) => match content.decompress() {
                        Ok(bytes) => (None, Ok(Some(Opened::Request(bytes)))),
                        Err(e) => (None, Err(e)),
                    },
                    Subsignal::Error(_) => (None, Err(Error::Invalidated)),
                    Subsignal::Disconnect => (None, Err(Error::Disconnected)),
                }
            },
            Signal::Error(_) => (None, Err(Error::Invalidated)),
        }
    }
}

} // verus!
