//! Falcon-1024 identities and signed values.

use vstd::prelude::*;
use crate::encoding::{concat, copy_bytes, postcard_encode_u128, postcard_take_u128, varint, Encode, Prefixed};
use crate::error::Error;

verus! {

/// The size of a Falcon-1024 public key.
pub const PUBLIC_KEY_BYTES: usize = 1793;

/// The size of a Falcon-1024 secret key.
pub const SECRET_KEY_BYTES: usize = 2305;

/// The largest Falcon-1024 detached signature.
pub const SIGNATURE_BYTES: usize = 1462;

/// A Falcon-1024 public key.
pub type PKSign = [u8; 1793];

/// A Falcon-1024 secret key.
pub type SKSign = [u8; 2305];

/// Whether Falcon-1024 accepts `sig` as a signature of `msg` under the public key `pk`.
pub uninterp spec fn falcon_accepts(pk: Seq<u8>, msg: Seq<u8>, sig: Seq<u8>) -> bool;

/// Whether `pk` is the Falcon-1024 public key that belongs to the secret key `sk`.
pub uninterp spec fn falcon_pair(pk: Seq<u8>, sk: Seq<u8>) -> bool;

/// `falcon1024::keypair()`: a fresh key pair from the system's generator,
/// as the bytes of its public and secret keys. Which pair comes out rests on
/// chance; that the two keys belong together is all that is promised.
#[verifier::external_body]
fn falcon_keypair() -> (r: ([u8; 1793], [u8; 2305]))
    ensures
        falcon_pair(r.0@, r.1@),
{
    let (pk, sk) = pqcrypto_falcon::falcon1024::keypair();
    let pk: [u8; 1793] = pqcrypto_traits::sign::PublicKey::as_bytes(&pk).try_into().unwrap();
    let sk: [u8; 2305] = pqcrypto_traits::sign::SecretKey::as_bytes(&sk).try_into().unwrap();
    (pk, sk)
}

/// `falcon1024::detached_sign(msg, sk)` on the secret key with these bytes,
/// as the signature's bytes. Signing is randomised, so which signature comes
/// out is left open; promised are the size bound of a detached signature and
/// that the public key of the pair accepts it (Falcon's correctness).
#[verifier::external_body]
fn falcon_sign(msg: &[u8], sk: &[u8; 2305]) -> (r: Vec<u8>)
    ensures
        r@.len() <= SIGNATURE_BYTES,
        forall|pk: Seq<u8>| falcon_pair(pk, sk@) ==> #[trigger] falcon_accepts(pk, msg@, r@),
{
    let sk = <pqcrypto_falcon::falcon1024::SecretKey as pqcrypto_traits::sign::SecretKey>::from_bytes(sk).unwrap();
    pqcrypto_traits::sign::DetachedSignature::as_bytes(&pqcrypto_falcon::falcon1024::detached_sign(msg, &sk)).to_vec()
}

/// `falcon1024::verify_detached_signature(sig, msg, pk)` on the signature and
/// public key with these bytes: whether it returns `Ok`. The answer is a
/// function of the three byte strings.
#[verifier::external_body]
fn falcon_verify(sig: &[u8], msg: &[u8], pk: &[u8; 1793]) -> (r: bool)
    requires
        sig@.len() <= SIGNATURE_BYTES,
    ensures
        r == falcon_accepts(pk@, msg@, sig@),
{
    let pk = <pqcrypto_falcon::falcon1024::PublicKey as pqcrypto_traits::sign::PublicKey>::from_bytes(pk).unwrap();
    match <pqcrypto_falcon::falcon1024::DetachedSignature as pqcrypto_traits::sign::DetachedSignature>::from_bytes(sig) {
        Ok(sig) => pqcrypto_falcon::falcon1024::verify_detached_signature(&sig, msg, &pk).is_ok(),
        Err(_) => false,
    }
}

/// A Falcon-1024 identity: the public key, and the secret key (`()` for a
/// public identity).
#[derive(Clone, Copy)]
pub struct Identity<T>(pub PKSign, pub T);

/// A public identity, able to verify.
pub type PKIdentity = Identity<()>;

/// A secret identity, able to sign.
pub type SKIdentity = Identity<SKSign>;

/// Whether the identity accepts `sig` as its signature of `data`: the
/// signature fits a Falcon-1024 signature and Falcon-1024 accepts it.
pub open spec fn accepts(pk: Seq<u8>, data: Seq<u8>, sig: Seq<u8>) -> bool {
    sig.len() <= SIGNATURE_BYTES && falcon_accepts(pk, data, sig)
}

impl<T> Identity<T> {
    /// The public identity.
    pub fn pk_identity(&self) -> (r: PKIdentity)
        ensures
            r.0 == self.0,
    {
        Identity(self.0, ())
    }

    /// The public identity of a public key.
    pub fn load(pk_signing: &PKSign) -> (r: PKIdentity)
        ensures
            r.0 == *pk_signing,
    {
        Identity(*pk_signing, ())
    }

    /// Verifies a signature of `data`.
    pub fn verify(&self, data: &[u8], sig: &[u8]) -> (r: Result<(), Error>)
        ensures
            r is Ok <==> accepts(self.0@, data@, sig@),
            r is Err ==> r == Err::<(), Error>(Error::InvalidSignature),
    {
        if sig.len() > SIGNATURE_BYTES {
            return Err(Error::InvalidSignature);
        }
        if falcon_verify(sig, data, &self.0) {
            Ok(())
        } else {
            Err(Error::InvalidSignature)
        }
    }
}

impl Identity<SKSign> {
    /// Generates a new identity.
    pub fn new() -> (r: Self)
        ensures
            falcon_pair(r.0@, r.1@),
    {
        let (pk, sk) = falcon_keypair();
        Identity(pk, sk)
    }

    /// Whether the two keys of this identity belong together.
    pub open spec fn paired(&self) -> bool {
        falcon_pair(self.0@, self.1@)
    }

    /// Signs `data`; the identity's own public key accepts the signature.
    pub fn sign(&self, data: &[u8]) -> (r: Vec<u8>)
        ensures
            r@.len() <= SIGNATURE_BYTES,
            self.paired() ==> accepts(self.0@, data@, r@),
    {
        falcon_sign(data, &self.1)
    }
}

/// A Falcon-1024 detached signature.
#[derive(Clone)]
pub struct Signature(pub Vec<u8>);

impl Signature {
    /// Two signatures are equal when their bytes are.
    pub fn same(&self, other: &Signature) -> (r: bool)
        ensures
            r <==> self.0@ == other.0@,
    {
        crate::hash::bytes_equal(self.0.as_slice(), other.0.as_slice())
    }
}

/// A value and a signature of its encoding.
#[derive(Clone)]
pub struct Signed<T>(pub T, pub Signature);

impl<T: Encode> View for Signed<T> {
    type V = (T::V, Seq<u8>);

    open spec fn view(&self) -> (T::V, Seq<u8>) {
        (self.0@, self.1.0@)
    }
}

/// The zero bytes that fill a signature up to the room of a Falcon-1024
/// detached signature.
pub open spec fn signature_padding(sig: Seq<u8>) -> Seq<u8> {
    Seq::new(if sig.len() <= SIGNATURE_BYTES { (SIGNATURE_BYTES - sig.len()) as nat } else { 0 }, |i: int| 0u8)
}

/// The wire form of a detached signature: its room of bytes, the signature
/// first and zeros after it, then the signature's length as a varint.
pub open spec fn signature_wire(sig: Seq<u8>) -> Seq<u8> {
    sig + signature_padding(sig) + varint(sig.len())
}

/// Writes the wire form of a detached signature.
fn signature_wire_bytes(sig: &Vec<u8>) -> (r: Vec<u8>)
    ensures
        r@ == signature_wire(sig@),
{
    let mut room = copy_bytes(sig);
    while room.len() < SIGNATURE_BYTES
        invariant
            room@.len() >= sig@.len(),
            sig@.len() <= SIGNATURE_BYTES ==> room@.len() <= SIGNATURE_BYTES,
            sig@.len() > SIGNATURE_BYTES ==> room@.len() == sig@.len(),
            room@ == sig@ + Seq::new((room@.len() - sig@.len()) as nat, |i: int| 0u8),
        decreases SIGNATURE_BYTES - room@.len(),
    {
        room.push(0u8);
        assert(room@ =~= sig@ + Seq::new((room@.len() - sig@.len()) as nat, |i: int| 0u8));
    }
    assert(room@ =~= sig@ + signature_padding(sig@)) by {
        if sig@.len() <= SIGNATURE_BYTES {
            assert(room@.len() == SIGNATURE_BYTES);
        } else {
            assert(room@.len() == sig@.len());
        }
        assert(Seq::new((room@.len() - sig@.len()) as nat, |i: int| 0u8) =~= signature_padding(sig@));
    }
    let length = postcard_encode_u128(sig.len() as u128);
    concat(room.as_slice(), length.as_slice())
}

/// A signed value is written as the value, then its signature in the wire
/// form of a detached signature.
impl<T: Encode> Encode for Signed<T> {
    open spec fn spec_encode(v: (T::V, Seq<u8>)) -> Seq<u8> {
        T::spec_encode(v.0) + signature_wire(v.1)
    }

    fn encode(&self) -> (r: Vec<u8>) {
        let value = self.0.encode();
        let signature = signature_wire_bytes(&self.1.0);
        concat(value.as_slice(), signature.as_slice())
    }
}

impl<T: Prefixed> Prefixed for Signed<T> {
    /// The value is valid and the signature fits its room.
    open spec fn valid(v: (T::V, Seq<u8>)) -> bool {
        T::valid(v.0) && v.1.len() <= SIGNATURE_BYTES
    }

    fn take_from(data: &[u8]) -> (r: Option<(Self, usize)>) {
        let (value, used) = match T::take_from(data) {
            Some(p) => p,
            None => {
                proof {
                    assert forall|v: (T::V, Seq<u8>), tail: Seq<u8>| Self::valid(v) && #[trigger] (Self::spec_encode(v) + tail) == data@
                        implies false by {
                        assert(T::spec_encode(v.0) + (signature_wire(v.1) + tail) == data@);
                    }
                }
                return None;
            },
        };
        let rest = vstd::slice::slice_subrange(data, used, data.len());
        proof {
            assert forall|v: (T::V, Seq<u8>), tail: Seq<u8>| Self::valid(v) && #[trigger] (Self::spec_encode(v) + tail) == data@
                implies value@ == v.0 && used == T::spec_encode(v.0).len()
                    && rest@ == v.1 + signature_padding(v.1) + (varint(v.1.len()) + tail) by {
                assert(T::spec_encode(v.0) + (signature_wire(v.1) + tail) == data@);
                assert(rest@ =~= v.1 + signature_padding(v.1) + (varint(v.1.len()) + tail));
            }
        }
        if rest.len() < SIGNATURE_BYTES {
            proof {
                assert forall|v: (T::V, Seq<u8>), tail: Seq<u8>| Self::valid(v) && #[trigger] (Self::spec_encode(v) + tail) == data@
                    implies false by {
                    assert(rest@ == v.1 + signature_padding(v.1) + (varint(v.1.len()) + tail));
                }
            }
            return None;
        }
        let room = vstd::slice::slice_subrange(rest, 0, SIGNATURE_BYTES);
        let after = vstd::slice::slice_subrange(rest, SIGNATURE_BYTES, rest.len());
        proof {
            assert forall|v: (T::V, Seq<u8>), tail: Seq<u8>| Self::valid(v) && #[trigger] (Self::spec_encode(v) + tail) == data@
                implies room@.subrange(0, v.1.len() as int) == v.1 && after@ == varint(v.1.len()) + tail by {
                let w = v.1 + signature_padding(v.1);
                assert(rest@ == w + (varint(v.1.len()) + tail));
                assert(w.len() == SIGNATURE_BYTES);
                assert(room@ =~= w);
                assert(room@.subrange(0, v.1.len() as int) =~= v.1);
                assert(after@ =~= varint(v.1.len()) + tail);
            }
        }
        let (length, taken) = match postcard_take_u128(after) {
            Some(p) => p,
            None => {
                proof {
                    assert forall|v: (T::V, Seq<u8>), tail: Seq<u8>| Self::valid(v) && #[trigger] (Self::spec_encode(v) + tail) == data@
                        implies false by {
                        assert(after@ == varint((v.1.len() as u128) as nat) + tail);
                    }
                }
                return None;
            },
        };
        proof {
            assert forall|v: (T::V, Seq<u8>), tail: Seq<u8>| Self::valid(v) && #[trigger] (Self::spec_encode(v) + tail) == data@
                implies length == v.1.len() && taken == varint(v.1.len()).len() by {
                assert(after@ == varint((v.1.len() as u128) as nat) + tail);
            }
        }
        if length > SIGNATURE_BYTES as u128 {
            return None;
        }
        let signature = vstd::slice::slice_to_vec(vstd::slice::slice_subrange(room, 0, length as usize));
        Some((Signed(value, Signature(signature)), used + SIGNATURE_BYTES + taken))
    }
}

impl<T: Encode> Signed<T> {
    /// Whether the identity with public key `pk` signed this value.
    pub open spec fn signed_by(&self, pk: Seq<u8>) -> bool {
        accepts(pk, T::spec_encode(self.0@), self.1.0@)
    }

    /// Signs the value with the identity.
    pub fn new(signing: &SKIdentity, data: T) -> (r: Self)
        ensures
            r.0 == data,
            r.1.0@.len() <= SIGNATURE_BYTES,
            signing.paired() ==> r.signed_by(signing.0@),
    {
        let encoded = data.encode();
        let signature = Signature(signing.sign(encoded.as_slice()));
        Signed(data, signature)
    }

    /// Verifies the signature with the identity.
    pub fn verify<U>(&self, signing: &Identity<U>) -> (r: Result<(), Error>)
        ensures
            r is Ok <==> self.signed_by(signing.0@),
            r is Err ==> r == Err::<(), Error>(Error::InvalidSignature),
    {
        let encoded = self.0.encode();
        signing.verify(encoded.as_slice(), self.1.0.as_slice())
    }

    /// Returns the value if the identity signed it.
    pub fn take<U>(self, signing: &Identity<U>) -> (r: Result<T, Error>)
        ensures
            r is Ok <==> self.signed_by(signing.0@),
            r matches Ok(v) ==> v == self.0,
            r is Err ==> r == Err::<T, Error>(Error::InvalidSignature),
    {
        match self.verify(signing) {
            Ok(()) => Ok(self.0),
            Err(e) => Err(e),
        }
    }
}

/// A signed value is written as the value's encoding, then the signature's
/// bytes, zeros up to the 1462 bytes of a detached signature's room, and the
/// signature's length as a varint.
pub proof fn lemma_signed_layout<T: Encode>(v: T::V, sig: Seq<u8>)
    requires
        sig.len() <= 1462,
    ensures
        Signed::<T>::spec_encode((v, sig)) == T::spec_encode(v) + sig
            + Seq::new((1462 - sig.len()) as nat, |i: int| 0u8) + varint(sig.len()),
        Signed::<T>::spec_encode((v, sig)).len() == T::spec_encode(v).len() + 1462 + varint(sig.len()).len(),
{
    assert(signature_padding(sig) =~= Seq::new((1462 - sig.len()) as nat, |i: int| 0u8));
    assert(Signed::<T>::spec_encode((v, sig)) =~= T::spec_encode(v) + sig
        + Seq::new((1462 - sig.len()) as nat, |i: int| 0u8) + varint(sig.len()));
}

/// A signature is accepted exactly when it fits the 1462 bytes of a
/// Falcon-1024 detached signature and Falcon-1024 accepts it for the data
/// under the public key; a signed value is signed by a key exactly when its
/// signature is accepted for the value's encoding.
pub proof fn lemma_accepts_is_falcon<T: Encode>(pk: Seq<u8>, data: Seq<u8>, sig: Seq<u8>, s: Signed<T>)
    ensures
        accepts(pk, data, sig) <==> sig.len() <= 1462 && falcon_accepts(pk, data, sig),
        s.signed_by(pk) <==> s.1.0@.len() <= 1462 && falcon_accepts(pk, T::spec_encode(s.0@), s.1.0@),
{
}

} // verus!
