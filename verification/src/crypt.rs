//! Values encrypted with the ChaCha20 stream cipher.

use vstd::prelude::*;
use core::marker::PhantomData;
use crate::encoding::{concat, postcard_bytes, postcard_encode_bytes, Decode, Encode};
use crate::error::Error;
use chacha20::cipher::{KeyIvInit, StreamCipher};

verus! {

/// The longest input one ChaCha20 instance can encrypt: its 32-bit block
/// counter runs out after `u32::MAX` blocks of 64 bytes.
pub const KEYSTREAM_LIMIT: u64 = 274877906880;

/// The first `len` bytes of the ChaCha20 keystream for a 32-byte key and a
/// 12-byte nonce, starting at block 0.
pub uninterp spec fn chacha20_keystream(key: Seq<u8>, iv: Seq<u8>, len: nat) -> Seq<u8>;

/// Byte-wise exclusive or of `a` with the first `a.len()` bytes of `b`.
pub open spec fn xor_bytes(a: Seq<u8>, b: Seq<u8>) -> Seq<u8> {
    Seq::new(a.len(), |i: int| a[i] ^ b[i])
}

/// `ChaCha20::new(key, iv).apply_keystream(buffer)` on a copy of `data`: the
/// result is `data` xor the keystream of the key and nonce. The cipher panics
/// when the input is longer than its counter allows, hence the `requires`.
#[verifier::external_body]
pub(crate) fn chacha20_apply(key: &[u8; 32], iv: &[u8; 12], data: &[u8]) -> (r: Vec<u8>)
    requires
        data@.len() <= KEYSTREAM_LIMIT,
    ensures
        r@ == xor_bytes(data@, chacha20_keystream(key@, iv@, data@.len())),
{
    let mut buffer = data.to_vec();
    chacha20::ChaCha20::new(key.into(), iv.into()).apply_keystream(&mut buffer);
    buffer
}

/// `rand::random::<[u8; 12]>()`: a nonce drawn from the thread's generator.
/// Nothing is promised of its value.
#[verifier::external_body]
pub(crate) fn random_nonce() -> (r: [u8; 12]) {
    rand::random::<[u8; 12]>()
}

/// Applying the same keystream twice gives the input back.
pub proof fn lemma_xor_twice(a: Seq<u8>, k: Seq<u8>)
    ensures
        xor_bytes(xor_bytes(a, k), k) == a,
{
    assert forall|i: int| 0 <= i < a.len() implies #[trigger] xor_bytes(xor_bytes(a, k), k)[i] == a[i] by {
        let x = a[i];
        let y = k[i];
        assert((x ^ y) ^ y == x) by (bit_vector);
    }
    assert(xor_bytes(xor_bytes(a, k), k) =~= a);
}

/// Writes a byte string and a nonce as postcard writes the pair: the
/// length-prefixed bytes, then the 12 nonce bytes raw.
fn postcard_encode_bytes_nonce(data: &[u8], iv: &[u8; 12]) -> (r: Vec<u8>)
    ensures
        r@ == postcard_bytes(data@) + iv@,
{
    let bytes = postcard_encode_bytes(data);
    concat(bytes.as_slice(), iv.as_slice())
}

/// An encrypted value: its encoding xored with a ChaCha20 keystream, and the nonce.
pub struct Crypt<T> {
    pub marker: PhantomData<T>,
    pub data: Vec<u8>,
    pub iv: [u8; 12],
}

impl<T> Clone for Crypt<T> {
    fn clone(&self) -> (r: Self)
        ensures
            r@ == self@,
    {
        Crypt { marker: PhantomData, data: self.data.clone(), iv: self.iv }
    }
}

impl<T> View for Crypt<T> {
    type V = (Seq<u8>, Seq<u8>);

    open spec fn view(&self) -> (Seq<u8>, Seq<u8>) {
        (self.data@, self.iv@)
    }
}

impl<T> Encode for Crypt<T> {
    open spec fn spec_encode(v: (Seq<u8>, Seq<u8>)) -> Seq<u8> {
        postcard_bytes(v.0) + v.1
    }

    fn encode(&self) -> (r: Vec<u8>) {
        postcard_encode_bytes_nonce(self.data.as_slice(), &self.iv)
    }
}

impl<T> Crypt<T> {
    /// The plaintext that decryption with `key` recovers.
    pub open spec fn plaintext(v: (Seq<u8>, Seq<u8>), key: Seq<u8>) -> Seq<u8> {
        xor_bytes(v.0, chacha20_keystream(key, v.1, v.0.len()))
    }
}

impl<T: Encode> Crypt<T> {
    /// The ciphertext of a value under a key and nonce.
    pub open spec fn ciphertext(data: T::V, key: Seq<u8>, iv: Seq<u8>) -> Seq<u8> {
        xor_bytes(T::spec_encode(data), chacha20_keystream(key, iv, T::spec_encode(data).len()))
    }

    /// Encrypts the value's encoding with `key` under a fresh random nonce.
    pub fn new(data: T, key: &[u8; 32]) -> (r: Result<Self, Error>)
        requires
            T::spec_encode(data@).len() <= KEYSTREAM_LIMIT,
        ensures
            r matches Ok(c) && c.data@ == Self::ciphertext(data@, key@, c.iv@),
            r matches Ok(c) && Self::plaintext(c@, key@) == T::spec_encode(data@),
    {
        let buffer = data.encode();
        let iv = random_nonce();
        let encrypted = chacha20_apply(key, &iv, buffer.as_slice());
        proof {
            lemma_xor_twice(buffer@, chacha20_keystream(key@, iv@, buffer@.len()));
        }
        Ok(Crypt { marker: PhantomData, data: encrypted, iv })
    }
}

impl<T: Decode> Crypt<T> {
    /// Decrypts with `key` and decodes the plaintext.
    pub fn take(&mut self, key: &[u8; 32]) -> (r: Result<T, Error>)
        requires
            old(self).data@.len() <= KEYSTREAM_LIMIT,
        ensures
            final(self)@ == old(self)@,
            forall|v: T::V| #[trigger] T::spec_encode(v) == Self::plaintext(old(self)@, key@)
                ==> (r matches Ok(w) && w@ == v),
            r matches Ok(w) ==> T::spec_encode(w@) == Self::plaintext(old(self)@, key@),
            r is Err ==> r == Err::<T, Error>(Error::Malformed),
    {
        let buffer = chacha20_apply(key, &self.iv, self.data.as_slice());
        match T::decode(buffer.as_slice()) {
            Ok(v) => Ok(v),
            Err(_) => Err(Error::Malformed),
        }
    }
}

/// Decrypting what was encrypted under the same key recovers the encoding of
/// the value that was encrypted.
pub proof fn lemma_crypt_roundtrip<T: Encode>(data: T::V, key: Seq<u8>, iv: Seq<u8>)
    ensures
        Crypt::<T>::plaintext((Crypt::<T>::ciphertext(data, key, iv), iv), key) == T::spec_encode(data),
{
    let e = T::spec_encode(data);
    lemma_xor_twice(e, chacha20_keystream(key, iv, e.len()));
}

/// An encrypted value is written as its ciphertext's length as a varint, the
/// ciphertext, then the 12 nonce bytes; decryption xors the ciphertext byte by
/// byte with the keystream of the key and the nonce, and encryption xors the
/// value's encoding with it.
pub proof fn lemma_crypt_layout<T: Encode>(v: (Seq<u8>, Seq<u8>), data: T::V, key: Seq<u8>, iv: Seq<u8>)
    ensures
        Crypt::<T>::spec_encode(v) == crate::encoding::varint(v.0.len()) + v.0 + v.1,
        Crypt::<T>::plaintext(v, key).len() == v.0.len(),
        forall|i: int| 0 <= i < v.0.len() ==> #[trigger] Crypt::<T>::plaintext(v, key)[i]
            == v.0[i] ^ chacha20_keystream(key, v.1, v.0.len())[i],
        Crypt::<T>::ciphertext(data, key, iv).len() == T::spec_encode(data).len(),
        forall|i: int| 0 <= i < T::spec_encode(data).len() ==> #[trigger] Crypt::<T>::ciphertext(data, key, iv)[i]
            == T::spec_encode(data)[i] ^ chacha20_keystream(key, iv, T::spec_encode(data).len())[i],
{
}

} // verus!
