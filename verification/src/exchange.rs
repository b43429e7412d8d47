//! Key exchange containers and the X25519 (ECDH) exchange.

use vstd::prelude::*;
use crate::encoding::{Encode, Prefixed};

verus! {

/// The public key that X25519 derives from a 32-byte secret.
pub uninterp spec fn x25519_public(secret: Seq<u8>) -> Seq<u8>;

/// The shared secret that X25519 computes from a 32-byte secret and a peer's public key.
pub uninterp spec fn x25519_shared(secret: Seq<u8>, public: Seq<u8>) -> Seq<u8>;

/// `StaticSecret::random_from_rng(OsRng)`: a fresh secret from the operating
/// system's generator. Nothing is promised of its bytes.
#[verifier::external_body]
fn x25519_random_secret() -> (r: [u8; 32]) {
    x25519_dalek::StaticSecret::random_from_rng(rand::rngs::OsRng).to_bytes()
}

/// `PublicKey::from(&StaticSecret::from(secret))`: the public key of a secret.
#[verifier::external_body]
fn x25519_public_key(secret: &[u8; 32]) -> (r: [u8; 32])
    ensures
        r@ == x25519_public(secret@),
{
    x25519_dalek::PublicKey::from(&x25519_dalek::StaticSecret::from(*secret)).to_bytes()
}

/// `StaticSecret::from(secret).diffie_hellman(&PublicKey::from(public))`.
/// The result is a function of the secret and the public key, and it is the
/// Diffie-Hellman agreement: the holder of any secret whose public key is
/// `public` computes the same bytes from this secret's public key.
#[verifier::external_body]
fn x25519_diffie_hellman(secret: &[u8; 32], public: &[u8; 32]) -> (r: [u8; 32])
    ensures
        r@ == x25519_shared(secret@, public@),
        forall|other: Seq<u8>| other.len() == 32 && #[trigger] x25519_public(other) == public@
            ==> r@ == x25519_shared(other, x25519_public(secret@)),
{
    *x25519_dalek::StaticSecret::from(*secret).diffie_hellman(&x25519_dalek::PublicKey::from(*public)).as_bytes()
}

/// Writes a 32-byte array as postcard does: arrays are tuples, written as
/// their raw bytes.
fn postcard_encode_array32(data: &[u8; 32]) -> (r: Vec<u8>)
    ensures
        r@ == data@,
{
    vstd::slice::slice_to_vec(data.as_slice())
}

/// A public key and its private counterpart (`()` for a public-only container).
#[derive(Clone, Copy)]
pub struct Exchange<T, U>(pub T, pub U);

/// A key pair able to agree on a shared secret with a peer's public key.
pub trait Exchangeable: Sized {
    type Pub;
    type SharedSecret;

    /// Generates a new key pair.
    fn new() -> Self;

    /// Returns the secret shared with the owner of `pub_key`.
    fn get_secret(&self, pub_key: &Self::Pub) -> Self::SharedSecret;
}

impl<T: Copy, U> Exchange<T, U> {
    /// Returns the public part.
    pub fn pk_exchange(&self) -> (r: Exchange<T, ()>)
        ensures
            r == Exchange(self.0, ()),
    {
        Exchange(self.0, ())
    }
}

/// The X25519 public key container.
pub type PKEcdh = Exchange<[u8; 32], ()>;

/// The X25519 key pair: public key and secret.
pub type SKEcdh = Exchange<[u8; 32], [u8; 32]>;

/// The X25519 shared secret.
pub type SSEcdh = Vec<u8>;

impl View for Exchange<[u8; 32], ()> {
    type V = Seq<u8>;

    open spec fn view(&self) -> Seq<u8> {
        self.0@
    }
}

impl Encode for Exchange<[u8; 32], ()> {
    open spec fn spec_encode(v: Seq<u8>) -> Seq<u8> {
        v
    }

    fn encode(&self) -> (r: Vec<u8>) {
        postcard_encode_array32(&self.0)
    }
}

impl View for Exchange<[u8; 32], [u8; 32]> {
    type V = (Seq<u8>, Seq<u8>);

    open spec fn view(&self) -> (Seq<u8>, Seq<u8>) {
        (self.0@, self.1@)
    }
}

impl Encode for Exchange<[u8; 32], [u8; 32]> {
    open spec fn spec_encode(v: (Seq<u8>, Seq<u8>)) -> Seq<u8> {
        v.0 + v.1
    }

    fn encode(&self) -> (r: Vec<u8>) {
        let public = postcard_encode_array32(&self.0);
        let secret = postcard_encode_array32(&self.1);
        crate::encoding::concat(public.as_slice(), secret.as_slice())
    }
}

impl Prefixed for Exchange<[u8; 32], ()> {
    open spec fn valid(v: Seq<u8>) -> bool {
        v.len() == 32
    }

    fn take_from(data: &[u8]) -> (r: Option<(Self, usize)>) {
        if data.len() < 32 {
            proof {
                assert forall|v: Seq<u8>, rest: Seq<u8>| Self::valid(v) && #[trigger] (Self::spec_encode(v) + rest) == data@
                    implies false by {
                    assert((v + rest).len() >= 32);
                }
            }
            return None;
        }
        let mut key: [u8; 32] = [0u8; 32];
        let mut i: usize = 0;
        while i < 32
            invariant
                i <= 32,
                data@.len() >= 32,
                forall|j: int| 0 <= j < i ==> #[trigger] key@[j] == data@[j],
            decreases 32 - i,
        {
            key[i] = data[i];
            i = i + 1;
        }
        proof {
            assert forall|v: Seq<u8>, rest: Seq<u8>| Self::valid(v) && #[trigger] (Self::spec_encode(v) + rest) == data@
                implies key@ == v by {
                assert forall|j: int| 0 <= j < 32 implies key@[j] == v[j] by {
                    assert((v + rest)[j] == v[j]);
                }
                assert(key@ =~= v);
            }
        }
        Some((Exchange(key, ()), 32))
    }
}

impl Exchange<[u8; 32], ()> {
    /// Two public keys are equal when their bytes are.
    pub fn same_key(&self, other: &Self) -> (r: bool)
        ensures
            r <==> self.0@ == other.0@,
    {
        crate::hash::bytes_equal(&self.0, &other.0)
    }
}

impl Exchange<[u8; 32], [u8; 32]> {
    /// The public key is the one the secret derives.
    pub open spec fn well_formed(&self) -> bool {
        self.0@ == x25519_public(self.1@)
    }

    /// Generates a fresh X25519 key pair.
    pub fn generate() -> (r: Self)
        ensures
            r.well_formed(),
    {
        let secret = x25519_random_secret();
        let public = x25519_public_key(&secret);
        Exchange(public, secret)
    }

    /// The secret shared with the owner of `pub_key`. Both sides of an exchange
    /// compute the same bytes: for any well-formed key pair `other` whose public
    /// key is `pub_key`, `other` gets this result from this pair's public key.
    pub fn shared_secret(&self, pub_key: &Exchange<[u8; 32], ()>) -> (r: SSEcdh)
        ensures
            r@ == x25519_shared(self.1@, pub_key.0@),
            self.well_formed() ==> forall|other: Exchange<[u8; 32], [u8; 32]>|
                other.well_formed() && #[trigger] other.0@ == pub_key.0@
                    ==> r@ == x25519_shared(other.1@, self.0@),
    {
        let shared = x25519_diffie_hellman(&self.1, &pub_key.0);
        let mut out: Vec<u8> = Vec::new();
        let mut i: usize = 0;
        while i < 32
            invariant
                i <= 32,
                out@ == shared@.subrange(0, i as int),
            decreases 32 - i,
        {
            out.push(shared[i]);
            i = i + 1;
        }
        assert(out@ =~= shared@);
        out
    }

    /// Whether two key pairs hold the same keys.
    pub fn same_pair(&self, other: &Self) -> (r: bool)
        ensures
            r <==> (self.0@ == other.0@ && self.1@ == other.1@),
    {
        crate::hash::bytes_equal(&self.0, &other.0) && crate::hash::bytes_equal(&self.1, &other.1)
    }
}

impl Exchangeable for Exchange<[u8; 32], [u8; 32]> {
    type Pub = Exchange<[u8; 32], ()>;
    type SharedSecret = SSEcdh;

    fn new() -> (r: Self)
        ensures
            r.well_formed(),
    {
        Self::generate()
    }

    fn get_secret(&self, pub_key: &Exchange<[u8; 32], ()>) -> (r: SSEcdh)
        ensures
            r@ == x25519_shared(self.1@, pub_key.0@),
            self.well_formed() ==> forall|other: Exchange<[u8; 32], [u8; 32]>|
                other.well_formed() && #[trigger] other.0@ == pub_key.0@
                    ==> r@ == x25519_shared(other.1@, self.0@),
    {
        self.shared_secret(pub_key)
    }
}

/// An X25519 pair is well formed exactly when its public key is the one
/// X25519 derives from its secret.
pub proof fn lemma_well_formed_pair(e: Exchange<[u8; 32], [u8; 32]>)
    ensures
        e.well_formed() <==> e.0@ == x25519_public(e.1@),
{
}

} // verus!
