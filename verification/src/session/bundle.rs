//! The key bundle a user publishes so that others can open a session with it.

use vstd::prelude::*;
use crate::csidh::SKCsidh;
use crate::error::Error;
use crate::exchange::{Exchange, Exchangeable, PKEcdh, SKEcdh};
use crate::identity::Signed;
use crate::keychain::{copy_signed, PKKeychain, SKExchangePair, SKKeychain};
use super::{public_pair, responder_keys, session_key, session_material, session_secret, Mode, SessionKey};

verus! {

/// A public keychain and, optionally, a one-time key signed by its identity.
pub struct Bundle {
    pub pk_keychain: PKKeychain,
    pub pk_one_time: Option<Signed<PKEcdh>>,
}

/// What the initiator of a session ends with: the signed public half of its
/// ephemeral key, to send along, and the session key.
pub type Opening = (Signed<PKEcdh>, SessionKey);

/// The value a signed option holds, if any.
pub open spec fn signed_contents<T>(o: Option<Signed<T>>) -> Option<T> {
    match o {
        Some(s) => Some(s.0),
        None => None,
    }
}

impl Bundle {
    /// Creates a bundle from a public keychain and an optional one-time key.
    /// The one-time key's signature is not checked here (see `pk_one_time`).
    pub fn new(pk_keychain: PKKeychain, pk_one_time: Option<Signed<PKEcdh>>) -> (r: Result<Self, Error>)
        ensures
            r matches Ok(b) && b.pk_keychain == pk_keychain && b.pk_one_time == pk_one_time,
    {
        Ok(Bundle { pk_keychain, pk_one_time })
    }

    /// The one-time key if there is one, with the outcome of checking its
    /// signature against the bundle's identity.
    pub fn pk_one_time(&self) -> (r: Option<Result<&Signed<PKEcdh>, Error>>)
        ensures
            self.pk_one_time is None ==> r is None,
            self.pk_one_time matches Some(s) ==> r matches Some(v) && (v is Ok <==> s.signed_by(self.pk_keychain.sign.0@))
                && (v matches Ok(t) ==> *t == s)
                && (v is Err ==> v == Err::<&Signed<PKEcdh>, Error>(Error::InvalidSignature)),
    {
        match &self.pk_one_time {
            None => None,
            Some(s) => match s.verify(&self.pk_keychain.sign) {
                Ok(()) => Some(Ok(s)),
                Err(e) => Some(Err(e)),
            },
        }
    }

    /// Whether every signature the initiator relies on checks: its own
    /// keychain's, the bundle keychain's and the one-time key's.
    pub open spec fn signatures_hold(&self, sk_keychain: &SKKeychain) -> bool {
        &&& sk_keychain.intact()
        &&& self.pk_keychain.intact()
        &&& (self.pk_one_time matches Some(s) ==> s.signed_by(self.pk_keychain.sign.0@))
    }

    /// Opens a session with the bundle's owner: checks the signatures,
    /// generates an ephemeral key and computes the session key as initiator.
    /// Both sides agree: the owner of the bundle, holding the secret halves of
    /// the bundle's keys, computes the same key as responder from the
    /// initiator's public keys and the returned ephemeral key.
    pub fn agreement(&self, sk_keychain: SKKeychain) -> (r: Result<Opening, Error>)
        ensures
            !self.signatures_hold(&sk_keychain) ==> r == Err::<Opening, Error>(Error::InvalidSignature),
            r is Ok ==> self.signatures_hold(&sk_keychain),
            self.signatures_hold(&sk_keychain) && sk_keychain.exchange.0.1.well_formed()
                && (exists|o: SKCsidh| o.well_formed() && #[trigger] o.0@ == self.pk_keychain.exchange.0.1.0@) ==> r is Ok,
            r is Err ==> r == Err::<Opening, Error>(Error::InvalidSignature) || r == Err::<Opening, Error>(Error::InvalidPublicKey),
            r matches Ok(o) ==> exists|e: SKEcdh| #[trigger] e.well_formed() && o.0.0 == Exchange(e.0, ())
                && o.1@ == session_secret(session_material(
                    Mode::Initiator(signed_contents(self.pk_one_time)),
                    sk_keychain.exchange.0, e, self.pk_keychain.exchange.0, self.pk_keychain.pre_exchange.0)),
            r matches Ok(o) ==> (sk_keychain.sign.paired() ==> o.0.signed_by(sk_keychain.sign.0@)),
            r is Ok && sk_keychain.exchange.0.0.well_formed() && sk_keychain.exchange.0.1.well_formed()
                ==> forall|b: SKExchangePair, b_pre: SKEcdh, b_one: Option<SKEcdh>|
                    #[trigger] responder_keys(b, b_pre, b_one, self.pk_keychain.exchange.0, self.pk_keychain.pre_exchange.0,
                        signed_contents(self.pk_one_time))
                    ==> r.unwrap().1@ == session_secret(session_material(
                        Mode::Responder(b_one), b, b_pre, public_pair(sk_keychain.exchange.0), r.unwrap().0.0)),
    {
        let (sk_exchange, _pre) = match sk_keychain.take_keys() {
            Ok(p) => p,
            Err(e) => return Err(e),
        };
        let (bundle_exchange, bundle_pre_exchange) = match self.pk_keychain.take_keys() {
            Ok(p) => p,
            Err(e) => return Err(e),
        };
        let pk_one_time: Option<PKEcdh> = match &self.pk_one_time {
            None => None,
            Some(s) => match copy_signed(s).take(&self.pk_keychain.sign) {
                Ok(k) => Some(k),
                Err(e) => return Err(e),
            },
        };
        let sk_ephemeral = SKEcdh::new();
        let key = match session_key(Mode::Initiator(pk_one_time), sk_exchange, sk_ephemeral, bundle_exchange, bundle_pre_exchange) {
            Ok(k) => k,
            Err(e) => return Err(e),
        };
        let pk_ephemeral = sk_ephemeral.pk_exchange();
        assert(pk_ephemeral == Exchange(sk_ephemeral.0, ()));
        let signed = Signed::new(&sk_keychain.sign, pk_ephemeral);
        assert(sk_ephemeral.well_formed());
        Ok((signed, key))
    }
}

} // verus!
