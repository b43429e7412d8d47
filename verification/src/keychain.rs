//! Keychains: an identity and the exchange keys it signed.

use vstd::prelude::*;
use crate::csidh::{PKCsidh, SKCsidh};
use crate::encoding::{copy_bytes, Encode};
use crate::error::Error;
use crate::exchange::{Exchangeable, PKEcdh, SKEcdh};
use crate::identity::{Identity, PKIdentity, SKIdentity, Signature, Signed};

verus! {

/// The public exchange keys: X25519 and CSIDH.
pub type PKExchangePair = (PKEcdh, PKCsidh);

/// The exchange key pairs: X25519 and CSIDH.
pub type SKExchangePair = (SKEcdh, SKCsidh);

/// A container that hands out its exchange keys once their signatures check.
pub trait Keychainable<T> {
    /// What `take` gives: the keys when every signature checks, else why not.
    spec fn taken(&self, r: Result<T, Error>) -> bool;

    /// Returns the keychain's exchange and pre-exchange keys.
    fn take(&self) -> (r: Result<T, Error>)
        ensures
            self.taken(r),
    ;
}

/// An identity, its long-term exchange keys and its pre-exchange key, both
/// signed by the identity.
#[derive(Clone)]
pub struct Keychain<T, U, V> {
    pub sign: T,
    pub exchange: Signed<U>,
    pub pre_exchange: Signed<V>,
}

/// A keychain of public keys.
pub type PKKeychain = Keychain<PKIdentity, PKExchangePair, PKEcdh>;

/// A keychain of key pairs.
pub type SKKeychain = Keychain<SKIdentity, SKExchangePair, SKEcdh>;

/// A copy of a signed value.
pub fn copy_signed<U: Copy>(s: &Signed<U>) -> (r: Signed<U>)
    ensures
        r.0 == s.0,
        r.1.0@ == s.1.0@,
{
    Signed(s.0, Signature(copy_bytes(&s.1.0)))
}

impl<S, U: Encode, V: Encode> Keychain<Identity<S>, U, V> {
    /// Both keys carry the identity's signature.
    pub open spec fn intact(&self) -> bool {
        self.exchange.signed_by(self.sign.0@) && self.pre_exchange.signed_by(self.sign.0@)
    }
}

impl<S, U: Encode + Copy, V: Encode + Copy> Keychain<Identity<S>, U, V> {
    /// The signed keys, once both signatures check.
    pub fn take_signed(&self) -> (r: Result<(Signed<U>, Signed<V>), Error>)
        ensures
            r is Ok <==> self.intact(),
            r matches Ok(p) ==> p.0.0 == self.exchange.0 && p.0.1.0@ == self.exchange.1.0@
                && p.1.0 == self.pre_exchange.0 && p.1.1.0@ == self.pre_exchange.1.0@,
            r is Err ==> r == Err::<(Signed<U>, Signed<V>), Error>(Error::InvalidSignature),
    {
        match self.exchange.verify(&self.sign) {
            Err(e) => return Err(e),
            Ok(()) => {},
        }
        match self.pre_exchange.verify(&self.sign) {
            Err(e) => return Err(e),
            Ok(()) => {},
        }
        Ok((copy_signed(&self.exchange), copy_signed(&self.pre_exchange)))
    }

    /// The exchange and pre-exchange keys, once both signatures check.
    pub fn take_keys(&self) -> (r: Result<(U, V), Error>)
        ensures
            r is Ok <==> self.intact(),
            r matches Ok(p) ==> p.0 == self.exchange.0 && p.1 == self.pre_exchange.0,
            r is Err ==> r == Err::<(U, V), Error>(Error::InvalidSignature),
    {
        match self.exchange.verify(&self.sign) {
            Err(e) => return Err(e),
            Ok(()) => {},
        }
        match self.pre_exchange.verify(&self.sign) {
            Err(e) => return Err(e),
            Ok(()) => {},
        }
        Ok((self.exchange.0, self.pre_exchange.0))
    }
}

impl<S, U: Encode + Copy, V: Encode + Copy> Keychainable<(Signed<U>, Signed<V>)> for Keychain<Identity<S>, U, V> {
    /// `Ok` exactly when both signatures check, with copies of the signed
    /// keys; otherwise "Invalid signature".
    open spec fn taken(&self, r: Result<(Signed<U>, Signed<V>), Error>) -> bool {
        &&& (r is Ok <==> self.intact())
        &&& (r matches Ok(p) ==> p.0.0 == self.exchange.0 && p.0.1.0@ == self.exchange.1.0@
                && p.1.0 == self.pre_exchange.0 && p.1.1.0@ == self.pre_exchange.1.0@)
        &&& (r is Err ==> r == Err::<(Signed<U>, Signed<V>), Error>(Error::InvalidSignature))
    }

    /// The signed keys, once both signatures check (see `take_signed`).
    fn take(&self) -> (r: Result<(Signed<U>, Signed<V>), Error>) {
        self.take_signed()
    }
}

impl<S, U: Encode + Copy, V: Encode + Copy> Keychainable<(U, V)> for Keychain<Identity<S>, U, V> {
    /// `Ok` exactly when both signatures check, with the exchange and
    /// pre-exchange keys; otherwise "Invalid signature".
    open spec fn taken(&self, r: Result<(U, V), Error>) -> bool {
        &&& (r is Ok <==> self.intact())
        &&& (r matches Ok(p) ==> p.0 == self.exchange.0 && p.1 == self.pre_exchange.0)
        &&& (r is Err ==> r == Err::<(U, V), Error>(Error::InvalidSignature))
    }

    /// The keys, once both signatures check (see `take_keys`).
    fn take(&self) -> (r: Result<(U, V), Error>) {
        self.take_keys()
    }
}

impl Keychain<PKIdentity, PKExchangePair, PKEcdh> {
    /// The public identity.
    pub fn pk_identity(&self) -> (r: &PKIdentity)
        ensures
            *r == self.sign,
    {
        &self.sign
    }

    /// Replaces the pre-exchange key with one the identity signed; a key with
    /// a bad signature is refused and the keychain left as it was.
    pub fn set_pre_exchange(&mut self, pre_exchange: Signed<PKEcdh>) -> (r: Result<(), Error>)
        ensures
            r is Ok <==> pre_exchange.signed_by(old(self).sign.0@),
            r is Ok ==> final(self).pre_exchange == pre_exchange,
            r is Err ==> *final(self) == *old(self) && r == Err::<(), Error>(Error::InvalidSignature),
            final(self).sign == old(self).sign,
            final(self).exchange == old(self).exchange,
    {
        match pre_exchange.verify(&self.sign) {
            Err(e) => Err(e),
            Ok(()) => {
                self.pre_exchange = pre_exchange;
                Ok(())
            },
        }
    }
}

impl Keychain<SKIdentity, SKExchangePair, SKEcdh> {
    /// Whether every key pair of the keychain is well formed.
    pub open spec fn pairs_well_formed(&self) -> bool {
        &&& self.exchange.0.0.well_formed()
        &&& self.exchange.0.1.well_formed()
        &&& self.pre_exchange.0.well_formed()
    }

    /// Generates a new keychain: a fresh identity, fresh X25519 and CSIDH key
    /// pairs and a fresh pre-exchange key, both signed by the identity.
    pub fn new() -> (r: Self)
        ensures
            r.pairs_well_formed(),
            r.sign.paired(),
            r.intact(),
    {
        let sign = SKIdentity::new();
        let exchange = Signed::new(&sign, (SKEcdh::new(), SKCsidh::new()));
        let pre_exchange = Signed::new(&sign, SKEcdh::new());
        Keychain { sign, exchange, pre_exchange }
    }

    /// Replaces the pre-exchange key with a fresh signed one.
    pub fn new_pre_exchange(&mut self)
        ensures
            final(self).sign == old(self).sign,
            final(self).exchange == old(self).exchange,
            final(self).pre_exchange.0.well_formed(),
            old(self).sign.paired() ==> final(self).pre_exchange.signed_by(final(self).sign.0@),
    {
        self.pre_exchange = Signed::new(&self.sign, SKEcdh::new());
    }

    /// A fresh one-time key, signed by the identity.
    pub fn new_one_time(&self) -> (r: Signed<SKEcdh>)
        ensures
            r.0.well_formed(),
            self.sign.paired() ==> r.signed_by(self.sign.0@),
    {
        Signed::new(&self.sign, SKEcdh::new())
    }

    /// The secret identity.
    pub fn sk_identity(&self) -> (r: &SKIdentity)
        ensures
            *r == self.sign,
    {
        &self.sign
    }

    /// The public keychain: the public identity, and the public halves of the
    /// exchange and pre-exchange keys signed anew. Refused when a signature of
    /// this keychain does not check. The new signatures check in turn.
    pub fn public(&self) -> (r: Result<PKKeychain, Error>)
        ensures
            r is Ok <==> self.intact(),
            r matches Ok(k) ==> (self.sign.paired() ==> k.intact()),
            r matches Ok(k) ==> k.sign.0 == self.sign.0
                && k.exchange.0.0.0 == self.exchange.0.0.0
                && k.exchange.0.1.0 == self.exchange.0.1.0
                && k.pre_exchange.0.0 == self.pre_exchange.0.0,
            r is Err ==> r == Err::<PKKeychain, Error>(Error::InvalidSignature),
    {
        let (exchange, pre_exchange): (SKExchangePair, SKEcdh) = match self.take_keys() {
            Ok(p) => p,
            Err(e) => return Err(e),
        };
        let (sk_ecdh, sk_csidh) = exchange;
        Ok(Keychain {
            sign: self.sign.pk_identity(),
            exchange: Signed::new(&self.sign, (sk_ecdh.pk_exchange(), sk_csidh.pk_exchange())),
            pre_exchange: Signed::new(&self.sign, pre_exchange.pk_exchange()),
        })
    }
}

/// A keychain is intact exactly when Falcon-1024 accepts, under the
/// keychain's public signing key, both the signature of the exchange keys'
/// encoding and that of the pre-exchange key's encoding, each fitting a
/// detached signature's 1462 bytes.
pub proof fn lemma_intact_means_both_signed<S, U: Encode, V: Encode>(k: Keychain<Identity<S>, U, V>)
    ensures
        k.intact() <==> (k.exchange.1.0@.len() <= 1462
            && crate::identity::falcon_accepts(k.sign.0@, U::spec_encode(k.exchange.0@), k.exchange.1.0@)
            && k.pre_exchange.1.0@.len() <= 1462
            && crate::identity::falcon_accepts(k.sign.0@, V::spec_encode(k.pre_exchange.0@), k.pre_exchange.1.0@)),
{
}

} // verus!
