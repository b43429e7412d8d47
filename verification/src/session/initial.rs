//! The initial message: what the initiator of a session sends so that the
//! responder can compute the session key.

use vstd::prelude::*;
use crate::csidh::SKCsidh;
use crate::error::Error;
use crate::exchange::{PKEcdh, SKEcdh};
use crate::identity::{PKIdentity, Signed};
use crate::keychain::{copy_signed, PKExchangePair, PKKeychain, SKKeychain};
use super::bundle::signed_contents;
use super::{session_key, session_material, session_secret, Mode, SessionKey};

verus! {

/// The initiator's public identity, its signed long-term public keys, its
/// signed ephemeral key and the responder's one-time key it used, if any.
pub struct Initial {
    pub pk_sign: PKIdentity,
    pub pk_exchange: Signed<PKExchangePair>,
    pub pk_ephemeral: Signed<PKEcdh>,
    pub pk_one_time: Option<Signed<PKEcdh>>,
}

impl Initial {
    /// Builds the initial message: checks that the initiator signed the
    /// ephemeral key and that the responder signed the one-time key, then
    /// takes the initiator's public identity and long-term public keys from
    /// its keychain, signed anew.
    pub fn new(
        sk_keychain: SKKeychain,
        pk_keychain: PKKeychain,
        pk_ephemeral: Signed<PKEcdh>,
        pk_one_time: Option<Signed<PKEcdh>>,
    ) -> (r: Result<Self, Error>)
        ensures
            !pk_ephemeral.signed_by(sk_keychain.sign.0@) ==> r == Err::<Initial, Error>(Error::InvalidSignature),
            (pk_one_time matches Some(s) && !s.signed_by(pk_keychain.sign.0@)) ==> r == Err::<Initial, Error>(Error::InvalidSignature),
            !sk_keychain.intact() ==> r == Err::<Initial, Error>(Error::InvalidSignature),
            r is Err ==> r == Err::<Initial, Error>(Error::InvalidSignature),
            pk_ephemeral.signed_by(sk_keychain.sign.0@) && sk_keychain.intact() && sk_keychain.sign.paired()
                && (pk_one_time matches Some(s) ==> s.signed_by(pk_keychain.sign.0@)) ==> r is Ok,
            r is Ok ==> pk_ephemeral.signed_by(sk_keychain.sign.0@) && sk_keychain.intact()
                && (pk_one_time matches Some(s) ==> s.signed_by(pk_keychain.sign.0@)),
            r matches Ok(m) ==> m.pk_sign.0 == sk_keychain.sign.0
                && m.pk_exchange.0.0.0 == sk_keychain.exchange.0.0.0
                && m.pk_exchange.0.1.0 == sk_keychain.exchange.0.1.0
                && m.pk_ephemeral == pk_ephemeral
                && m.pk_one_time == pk_one_time
                && m.pk_exchange.signed_by(m.pk_sign.0@),
    {
        match pk_ephemeral.verify(&sk_keychain.sign) {
            Err(e) => return Err(e),
            Ok(()) => {},
        }
        match &pk_one_time {
            Some(s) => match s.verify(&pk_keychain.sign) {
                Err(e) => return Err(e),
                Ok(()) => {},
            },
            None => {},
        }
        let converted = match sk_keychain.public() {
            Ok(k) => k,
            Err(e) => return Err(e),
        };
        let (pk_exchange, _pre) = match converted.take_signed() {
            Ok(p) => p,
            Err(e) => return Err(e),
        };
        Ok(Initial { pk_sign: converted.sign, pk_exchange, pk_ephemeral, pk_one_time })
    }

    /// Whether every signature the responder relies on checks: its own
    /// keychain's, its one-time key's, and the initiator's on its long-term
    /// and ephemeral keys.
    pub open spec fn signatures_hold(&self, sk_keychain: &SKKeychain, sk_one_time: &Option<Signed<SKEcdh>>) -> bool {
        &&& sk_keychain.intact()
        &&& (sk_one_time matches Some(s) ==> s.signed_by(sk_keychain.sign.0@))
        &&& self.pk_exchange.signed_by(self.pk_sign.0@)
        &&& self.pk_ephemeral.signed_by(self.pk_sign.0@)
    }

    /// Computes the session key as responder, from this message and the
    /// responder's keychain and one-time key. Refused when the message carries
    /// a one-time key and none is given, or the other way round, or when a
    /// signature does not check.
    pub fn agreement(&self, sk_keychain: SKKeychain, sk_one_time: Option<Signed<SKEcdh>>) -> (r: Result<SessionKey, Error>)
        ensures
            (self.pk_one_time is Some) != (sk_one_time is Some) ==> r == Err::<SessionKey, Error>(Error::UnexpectedOneTime),
            (self.pk_one_time is Some) == (sk_one_time is Some) && !self.signatures_hold(&sk_keychain, &sk_one_time)
                ==> r == Err::<SessionKey, Error>(Error::InvalidSignature),
            (self.pk_one_time is Some) == (sk_one_time is Some) && self.signatures_hold(&sk_keychain, &sk_one_time)
                && sk_keychain.exchange.0.1.well_formed()
                && (exists|o: SKCsidh| o.well_formed() && #[trigger] o.0@ == self.pk_exchange.0.1.0@) ==> r is Ok,
            r is Err ==> r == Err::<SessionKey, Error>(Error::UnexpectedOneTime) || r == Err::<SessionKey, Error>(Error::InvalidSignature)
                || r == Err::<SessionKey, Error>(Error::InvalidPublicKey),
            r is Ok ==> self.signatures_hold(&sk_keychain, &sk_one_time)
                && r.unwrap()@ == session_secret(session_material(
                    Mode::Responder(signed_contents(sk_one_time)),
                    sk_keychain.exchange.0, sk_keychain.pre_exchange.0, self.pk_exchange.0, self.pk_ephemeral.0)),
    {
        if self.pk_one_time.is_some() != sk_one_time.is_some() {
            return Err(Error::UnexpectedOneTime);
        }
        let (sk_exchange, sk_pre_exchange) = match sk_keychain.take_keys() {
            Ok(p) => p,
            Err(e) => return Err(e),
        };
        let one_time: Option<SKEcdh> = match sk_one_time {
            None => None,
            Some(s) => match s.take(&sk_keychain.sign) {
                Ok(k) => Some(k),
                Err(e) => return Err(e),
            },
        };
        let message_identity = self.pk_sign.pk_identity();
        let pk_exchange = match copy_signed(&self.pk_exchange).take(&message_identity) {
            Ok(k) => k,
            Err(e) => return Err(e),
        };
        let pk_ephemeral = match copy_signed(&self.pk_ephemeral).take(&message_identity) {
            Ok(k) => k,
            Err(e) => return Err(e),
        };
        session_key(Mode::Responder(one_time), sk_exchange, sk_pre_exchange, pk_exchange, pk_ephemeral)
    }

    /// The one-time key the initiator used, if any.
    pub fn get_one_time(&self) -> (r: Option<Signed<PKEcdh>>)
        ensures
            self.pk_one_time is None ==> r is None,
            self.pk_one_time matches Some(s) ==> r matches Some(t) && t.0 == s.0 && t.1.0@ == s.1.0@,
    {
        match &self.pk_one_time {
            None => None,
            Some(s) => Some(copy_signed(s)),
        }
    }
}

} // verus!
