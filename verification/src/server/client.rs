//! The server's state for one connected client: the handshake's shared
//! secret, the subsignal heights and the user's authentication.

use vstd::prelude::*;
use crate::compress::Compressed;
use crate::crypt::KEYSTREAM_LIMIT;
use crate::encoding::Encode;
use crate::error::Error;
use crate::exchange::{x25519_shared, Exchange, Exchangeable, PKEcdh, SKEcdh, SSEcdh};
use crate::identity::{accepts, PKIdentity, PKSign, Signature, Signed};
use crate::protocol::signal::{Height, Signal, Subsignal, SubsignalError, SubsignalHeight, SubsignalModel};

verus! {

/// The bytes a client signs to prove its identity.
pub type RandomPayload = [u8; 32];

/// A user's id.
pub type UserID = [u8; 16];

/// The signals a server sends: its handshake carries its signed public key.
pub type ServerSignal = Signal<Signed<PKEcdh>>;

/// The signals a client sends: its handshake carries its public key.
pub type ClientSignal = Signal<PKEcdh>;

/// Who the client is: not yet known, with the random payload it must sign
/// once one was generated, or the authenticated user.
pub enum UserState {
    Pending(Option<RandomPayload>),
    Known(UserID),
}

/// A connected client.
pub struct Client {
    pub user_id: UserState,
    pub height: Height,
    pub shared_secret: SSEcdh,
}

/// What the connection does after a subsignal: send a signal back, or close.
pub enum SubsignalHandlerResolution {
    Send(ServerSignal),
    Disconnect,
}

/// What a subsignal asks of the server: to answer a request (the serialized
/// request), or to close the connection.
pub enum Opened {
    Request(Vec<u8>),
    Disconnect,
}

/// What routing made of a request: it broke a rule or could not be served,
/// it has a reply (serialized), or it needs none.
pub enum Routed {
    Invalid,
    Reply(Vec<u8>),
    Silent,
}

/// The largest compressed reply: its subsignal's encoding stays within one
/// key stream.
pub const MAX_REPLY: u64 = 137438953438;

/// `rand::random::<[u8; 32]>()`: fresh random bytes. Nothing is promised of them.
#[verifier::external_body]
fn random_payload_bytes() -> (r: RandomPayload) {
    rand::random::<[u8; 32]>()
}

impl Client {
    /// Creates the state of a client that sent the public key `pk_exchange`
    /// in its handshake: generates the server's key pair for this client and
    /// computes the shared secret. Returns the client and the server's public
    /// key. The client, holding the secret of `pk_exchange`, computes the same
    /// secret from the returned public key.
    pub fn new(pk_exchange: &PKEcdh) -> (r: (Client, PKEcdh))
        ensures
            r.0.user_id == UserState::Pending(None),
            r.0.height.receiving == 0 && r.0.height.sending == 0,
            exists|e: SKEcdh| #[trigger] e.well_formed() && r.1 == Exchange(e.0, ())
                && r.0.shared_secret@ == x25519_shared(e.1@, pk_exchange.0@),
            forall|c: SKEcdh| c.well_formed() && #[trigger] c.0@ == pk_exchange.0@
                ==> r.0.shared_secret@ == x25519_shared(c.1@, r.1.0@),
    {
        let sk_exchange = SKEcdh::new();
        let shared_secret = sk_exchange.get_secret(pk_exchange);
        let pk = sk_exchange.pk_exchange();
        assert(sk_exchange.well_formed());
        (Client { user_id: UserState::Pending(None), height: Height::new(), shared_secret }, pk)
    }

    /// The authenticated user's id ("User id is not defined!" before).
    pub fn id(&self) -> (r: Result<UserID, Error>)
        ensures
            self.user_id matches UserState::Known(id) ==> r == Ok::<UserID, Error>(id),
            self.user_id is Pending ==> r == Err::<UserID, Error>(Error::UserIdUndefined),
    {
        match &self.user_id {
            UserState::Known(id) => Ok(*id),
            UserState::Pending(_) => Err(Error::UserIdUndefined),
        }
    }

    /// The shared secret of the handshake.
    pub fn shared_secret(&self) -> (r: &SSEcdh)
        ensures
            r@ == self.shared_secret@,
    {
        &self.shared_secret
    }

    /// Authenticates the user: the random payload must have been generated,
    /// and `sig` must be the signature of it under `pk_signing`. On success
    /// the client is known as `user_id`; otherwise nothing changes.
    pub fn authenticate_user(&mut self, user_id: UserID, pk_signing: &PKSign, sig: &Signature) -> (r: Result<(), Error>)
        requires
            old(self).user_id is Pending,
        ensures
            old(self).user_id == UserState::Pending(None) ==> r == Err::<(), Error>(Error::NoRandomPayload),
            old(self).user_id matches UserState::Pending(Some(p)) ==> (r is Ok <==> accepts(pk_signing@, p@, sig.0@)),
            r is Ok ==> final(self).user_id == UserState::Known(user_id),
            r is Err ==> final(self).user_id == old(self).user_id,
            r is Err ==> r == Err::<(), Error>(Error::NoRandomPayload) || r == Err::<(), Error>(Error::InvalidSignature),
            final(self).height == old(self).height,
            final(self).shared_secret == old(self).shared_secret,
    {
        let random_payload = match &self.user_id {
            UserState::Pending(Some(p)) => *p,
            _ => return Err(Error::NoRandomPayload),
        };
        match PKIdentity::load(pk_signing).verify(&random_payload, sig.0.as_slice()) {
            Err(e) => Err(e),
            Ok(()) => {
                self.user_id = UserState::Known(user_id);
                Ok(())
            },
        }
    }

    /// The random payload the user must sign, generated on first use and kept.
    pub fn random_payload(&mut self) -> (r: RandomPayload)
        requires
            old(self).user_id is Pending,
        ensures
            old(self).user_id matches UserState::Pending(Some(p)) ==> r == p && final(self).user_id == old(self).user_id,
            final(self).user_id == UserState::Pending(Some(r)),
            final(self).height == old(self).height,
            final(self).shared_secret == old(self).shared_secret,
    {
        match &self.user_id {
            UserState::Pending(Some(p)) => *p,
            _ => {
                let p = random_payload_bytes();
                self.user_id = UserState::Pending(Some(p));
                p
            },
        }
    }

    /// Handles a subsignal from the client: accepts its height, checks and
    /// decrypts it under the shared secret, and reads what it asks for. A
    /// request comes out as its serialized value; once read into a request it
    /// goes to `check_request`, which answers one that breaks a rule, and a
    /// request within its rules is routed and answered with `resolve`. An
    /// error the client reports ends the connection with that error.
    pub fn handle_subsignal(&mut self, height: SubsignalHeight, signal: ClientSignal) -> (r: Result<Opened, Error>)
        requires
            old(self).height.receiving < u128::MAX,
            signal.ciphertext_len() <= KEYSTREAM_LIMIT,
        ensures
            height != old(self).height.receiving ==> r == Err::<Opened, Error>(Error::InvalidHeight)
                && final(self).height == old(self).height,
            height == old(self).height.receiving ==> final(self).height.receiving == height + 1,
            final(self).height.sending == old(self).height.sending,
            final(self).user_id == old(self).user_id,
            final(self).shared_secret == old(self).shared_secret,
            height == old(self).height.receiving && signal.is_subsignal() && signal.subsignal_intact() ==> forall|v: SubsignalModel|
                #[trigger] Subsignal::spec_encode(v) == signal.opened(old(self).shared_secret@) ==> match v {
                    SubsignalModel::Content(c) => match crate::compress::lz4_decompress(c) {
                        Some(b) => (r matches Ok(Opened::Request(q)) && q@ == b),
                        None => r == Err::<Opened, Error>(Error::DecompressionFailed),
                    },
                    SubsignalModel::Error(e) => r == Err::<Opened, Error>(Error::Peer(e)),
                    SubsignalModel::Disconnect => r matches Ok(Opened::Disconnect),
                },
            height == old(self).height.receiving && signal.is_subsignal() && signal.subsignal_intact()
                && (forall|v: SubsignalModel| #[trigger] Subsignal::spec_encode(v) != signal.opened(old(self).shared_secret@))
                ==> r == Err::<Opened, Error>(Error::Malformed),
            height == old(self).height.receiving && !signal.is_subsignal() ==> r == Err::<Opened, Error>(Error::NotASubsignal),
            height == old(self).height.receiving && signal.is_subsignal() && !signal.subsignal_intact()
                ==> r == Err::<Opened, Error>(Error::Corrupted),
    {
        match self.height.receiving(height) {
            Err(e) => return Err(e),
            Ok(()) => {},
        }
        let subsignal = match signal.desugar(self.shared_secret.as_slice()) {
            Ok(s) => s,
            Err(e) => return Err(e),
        };
        match subsignal {
            Subsignal::Content(content) => match content.decompress() {
                Ok(bytes) => Ok(Opened::Request(bytes)),
                Err(e) => Err(e),
            },
            Subsignal::Error(e) => Err(Error::Peer(e)),
            Subsignal::Disconnect => Ok(Opened::Disconnect),
        }
    }

    /// Checks an opened request against its rules, with `today` as the
    /// current date (days since the epoch). A request that breaks a rule is
    /// answered with an `Invalid` error subsignal at the next sending height;
    /// one within its rules gets no answer here (it is to be routed), and the
    /// client is left as it was.
    pub fn check_request(&mut self, request: &crate::protocol::codec::client::Client, today: i64) -> (r: Result<Option<ServerSignal>, Error>)
        requires
            old(self).height.sending < u128::MAX,
        ensures
            request.validity(today) is Ok ==> (r matches Ok(None) && *final(self) == *old(self)),
            request.validity(today) is Err ==> (r matches Ok(Some(s))
                && s.is_subsignal() && s.height() == old(self).height.sending && s.subsignal_intact()
                && s.opened(old(self).shared_secret@) == Subsignal::spec_encode(SubsignalModel::Error(SubsignalError::Invalid))
                && final(self).height.sending == old(self).height.sending + 1
                && final(self).height.receiving == old(self).height.receiving
                && final(self).user_id == old(self).user_id
                && final(self).shared_secret == old(self).shared_secret),
    {
        if request.check_validity(today).is_ok() {
            return Ok(None);
        }
        match self.resolve(Routed::Invalid) {
            Ok(Some(SubsignalHandlerResolution::Send(s))) => Ok(Some(s)),
            Ok(_) => Ok(None),
            Err(e) => Err(e),
        }
    }

    /// How the client answered a routed request: `routed` turned `before`
    /// into `after` with the outcome `r`. A request that broke a rule or
    /// failed gets an `Invalid` error subsignal and a reply its compressed
    /// content, both at the next sending height; a request that needs no reply
    /// gets nothing; a reply too long for the LZ4 size prefix or for one key
    /// stream is refused ("too large") and changes nothing.
    pub open spec fn answered(before: Client, after: Client, routed: Routed, r: Result<Option<SubsignalHandlerResolution>, Error>) -> bool {
        &&& routed is Silent ==> (r matches Ok(None) && after == before)
        &&& routed is Invalid ==> (r matches Ok(Some(SubsignalHandlerResolution::Send(s)))
                && s.is_subsignal() && s.height() == before.height.sending && s.subsignal_intact()
                && s.opened(before.shared_secret@) == Subsignal::spec_encode(SubsignalModel::Error(SubsignalError::Invalid)))
        &&& routed matches Routed::Reply(b) ==> (b@.len() > u32::MAX ==> r == Err::<Option<SubsignalHandlerResolution>, Error>(Error::TooLarge)
                && after == before)
        &&& routed matches Routed::Reply(b) ==> (b@.len() <= u32::MAX && crate::compress::lz4_compress(b@).len() > MAX_REPLY
                ==> r == Err::<Option<SubsignalHandlerResolution>, Error>(Error::TooLarge) && after == before)
        &&& routed matches Routed::Reply(b) ==> (b@.len() <= u32::MAX && crate::compress::lz4_compress(b@).len() <= MAX_REPLY
                ==> (r matches Ok(Some(SubsignalHandlerResolution::Send(s)))
                && s.is_subsignal() && s.height() == before.height.sending && s.subsignal_intact()
                && s.opened(before.shared_secret@) == Subsignal::spec_encode(SubsignalModel::Content(crate::compress::lz4_compress(b@)))))
        &&& r matches Ok(Some(_)) ==> after.height.sending == before.height.sending + 1
                && after.height.receiving == before.height.receiving
        &&& after.user_id == before.user_id
        &&& after.shared_secret == before.shared_secret
    }

    /// Answers an opened request, with `today` as the current date (days since
    /// the epoch): a request that breaks a rule is answered `Invalid` and not
    /// routed; one within its rules is routed by `route` and its outcome
    /// answered as `answered` says.
    pub fn answer_request<F: FnOnce() -> Routed>(
        &mut self,
        request: &crate::protocol::codec::client::Client,
        today: i64,
        route: F,
    ) -> (r: Result<Option<SubsignalHandlerResolution>, Error>)
        requires
            old(self).height.sending < u128::MAX,
            call_requires(route, ()),
        ensures
            request.validity(today) is Err ==> Self::answered(*old(self), *final(self), Routed::Invalid, r),
            request.validity(today) is Ok ==> exists|routed: Routed| call_ensures(route, (), routed)
                && #[trigger] Self::answered(*old(self), *final(self), routed, r),
    {
        match self.check_request(request, today) {
            Ok(Some(s)) => return Ok(Some(SubsignalHandlerResolution::Send(s))),
            Ok(None) => {},
            Err(e) => return Err(e),
        }
        let routed = route();
        let ghost outcome = routed;
        if let Routed::Reply(b) = &routed {
            if b.len() as u64 > u32::MAX as u64 {
                assert(Self::answered(*old(self), *self, outcome, Err::<Option<SubsignalHandlerResolution>, Error>(Error::TooLarge)));
                return Err(Error::TooLarge);
            }
        }
        let r = self.resolve(routed);
        assert(Self::answered(*old(self), *self, outcome, r));
        r
    }

    /// Answers a routed request: a request that broke a rule or failed gets
    /// an `Invalid` error subsignal, a reply goes back compressed as content,
    /// both at the next sending height; a request that needs no reply gets
    /// nothing.
    pub fn resolve(&mut self, routed: Routed) -> (r: Result<Option<SubsignalHandlerResolution>, Error>)
        requires
            old(self).height.sending < u128::MAX,
            routed matches Routed::Reply(b) ==> b@.len() <= u32::MAX,
        ensures
            routed is Silent ==> (r matches Ok(None) && *final(self) == *old(self)),
            routed is Invalid ==> (r matches Ok(Some(SubsignalHandlerResolution::Send(s)))
                && s.is_subsignal() && s.height() == old(self).height.sending && s.subsignal_intact()
                && s.opened(old(self).shared_secret@) == Subsignal::spec_encode(SubsignalModel::Error(SubsignalError::Invalid))),
            routed matches Routed::Reply(b) ==> (crate::compress::lz4_compress(b@).len() > MAX_REPLY
                ==> r == Err::<Option<SubsignalHandlerResolution>, Error>(Error::TooLarge) && *final(self) == *old(self)),
            routed matches Routed::Reply(b) ==> (crate::compress::lz4_compress(b@).len() <= MAX_REPLY
                ==> (r matches Ok(Some(SubsignalHandlerResolution::Send(s)))
                && s.is_subsignal() && s.height() == old(self).height.sending && s.subsignal_intact()
                && s.opened(old(self).shared_secret@) == Subsignal::spec_encode(SubsignalModel::Content(crate::compress::lz4_compress(b@))))),
            r matches Ok(Some(_)) ==> final(self).height.sending == old(self).height.sending + 1
                && final(self).height.receiving == old(self).height.receiving,
            final(self).user_id == old(self).user_id,
            final(self).shared_secret == old(self).shared_secret,
    {
        let subsignal = match routed {
            Routed::Silent => return Ok(None),
            Routed::Invalid => Subsignal::Error(SubsignalError::Invalid),
            Routed::Reply(bytes) => {
                let compressed = Compressed::from_serialized(bytes.as_slice());
                if compressed.0.len() as u64 > MAX_REPLY {
                    return Err(Error::TooLarge);
                }
                proof {
                    crate::encoding::lemma_varint_len_bound(compressed.0@.len());
                    assert(crate::encoding::varint(0) =~= seq![0u8]);
                }
                Subsignal::Content(compressed)
            },
        };
        proof {
            crate::protocol::signal::lemma_error_encoding_small(SubsignalError::Invalid);
        }
        let sending = self.height.sending();
        match subsignal.sugar::<Signed<PKEcdh>>(self.shared_secret.as_slice(), sending) {
            Ok(signal) => Ok(Some(SubsignalHandlerResolution::Send(signal))),
            Err(e) => Err(e),
        }
    }
}

/// The handshake gives both ends the same secret: the secret the server
/// computed for a client whose handshake carried the public key of
/// `client_pair` (which equals, for any well-formed pair with that public key,
/// its X25519 secret with the server's key) is the secret the client computes
/// from the server's key.
pub proof fn lemma_handshake_agreement(server_secret: Seq<u8>, client_secret: Seq<u8>, client_pair: SKEcdh, server_pk: PKEcdh)
    requires
        client_pair.well_formed(),
        forall|c: SKEcdh| c.well_formed() && #[trigger] c.0@ == client_pair.0@
            ==> server_secret == x25519_shared(c.1@, server_pk.0@),
        client_secret == x25519_shared(client_pair.1@, server_pk.0@),
    ensures
        server_secret == client_secret,
{
}

} // verus!
