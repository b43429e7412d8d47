//! Raw serialized data that can be marked as encrypted.

use vstd::prelude::*;
use crate::crypt::{chacha20_apply, chacha20_keystream, lemma_xor_twice, random_nonce, xor_bytes, KEYSTREAM_LIMIT};
use crate::data::{Data, Serial};
use crate::error::Error;

verus! {

/// A serialized payload and, once encrypted, the nonce it was encrypted under.
pub struct Payload {
    pub data: Vec<u8>,
    pub encrypted: Option<[u8; 12]>,
}

impl Clone for Payload {
    fn clone(&self) -> (r: Self)
        ensures
            r@ == self@,
    {
        Payload { data: self.data.clone(), encrypted: self.encrypted }
    }
}

impl View for Payload {
    type V = (Seq<u8>, Option<Seq<u8>>);

    /// The payload's bytes and, once encrypted, the nonce's bytes.
    open spec fn view(&self) -> (Seq<u8>, Option<Seq<u8>>) {
        (self.data@, match self.encrypted {
            Some(iv) => Some(iv@),
            None => None,
        })
    }
}

impl Payload {
    /// Whether two payloads hold the same bytes under the same encryption mark
    /// and nonce.
    pub fn same(&self, other: &Payload) -> (r: bool)
        ensures
            r <==> (self.data@ == other.data@ && self.encrypted == other.encrypted),
    {
        let same_mark = match (&self.encrypted, &other.encrypted) {
            (None, None) => true,
            (Some(a), Some(b)) => {
                let e = crate::hash::bytes_equal(a, b);
                if e {
                    assert(a@ =~= b@);
                    assert(*a == *b);
                }
                e
            },
            _ => false,
        };
        same_mark && crate::hash::bytes_equal(self.data.as_slice(), other.data.as_slice())
    }

    /// Creates a payload from the serialization of a value.
    pub fn new<T: Serial>(data: &T) -> (r: Result<Self, Error>)
        ensures
            r matches Ok(p) && p@ == (T::spec_serialize(data@), None::<Seq<u8>>),
            r matches Ok(p) && T::spec_deserialize(p.data@) == Some(data@),
    {
        match Data::serialize(data) {
            Ok(bytes) => Ok(Payload { data: bytes, encrypted: None }),
            Err(e) => Err(e),
        }
    }

    /// The payload's bytes, refused while it is encrypted ("Payload is encrypted").
    pub fn take_buffer(&self) -> (r: Result<&Vec<u8>, Error>)
        ensures
            self.encrypted is None ==> (r matches Ok(b) && b@ == self.data@),
            self.encrypted is Some ==> r == Err::<&Vec<u8>, Error>(Error::AlreadyEncrypted),
    {
        if self.encrypted.is_none() {
            Ok(&self.data)
        } else {
            Err(Error::AlreadyEncrypted)
        }
    }

    /// Deserializes the payload's bytes.
    pub fn deserialize<T: Serial>(&self) -> (r: Result<T, Error>)
        ensures
            T::spec_deserialize(self.data@) is None ==> r == Err::<T, Error>(Error::Malformed),
            T::spec_deserialize(self.data@) is Some
                ==> (r matches Ok(w) && Some(w@) == T::spec_deserialize(self.data@)),
    {
        Data::deserialize(&self.data)
    }

    /// Encrypts the payload in place with ChaCha20 under `key` and a fresh
    /// nonce, which is kept for decryption. Refused when already encrypted
    /// ("Payload is already encrypted"), and when the payload is longer than
    /// one keystream ("too large").
    pub fn encrypt(&mut self, key: &[u8; 32]) -> (r: Result<(), Error>)
        ensures
            old(self).encrypted is None && old(self).data@.len() <= KEYSTREAM_LIMIT ==> r is Ok
                && final(self).encrypted is Some
                && final(self).data@ == apply_cipher(old(self).data@, key@, final(self).encrypted.unwrap()@),
            old(self).encrypted is None && old(self).data@.len() > KEYSTREAM_LIMIT ==> r == Err::<(), Error>(Error::TooLarge)
                && final(self).data@ == old(self).data@ && final(self).encrypted == old(self).encrypted,
            old(self).encrypted is Some ==> r == Err::<(), Error>(Error::AlreadyEncrypted)
                && final(self).data@ == old(self).data@ && final(self).encrypted == old(self).encrypted,
    {
        if self.encrypted.is_none() {
            if self.data.len() as u64 > KEYSTREAM_LIMIT {
                return Err(Error::TooLarge);
            }
            let iv = random_nonce();
            self.data = chacha20_apply(key, &iv, self.data.as_slice());
            self.encrypted = Some(iv);
            Ok(())
        } else {
            Err(Error::AlreadyEncrypted)
        }
    }

    /// Decrypts the payload in place with ChaCha20 under `key` and the stored
    /// nonce, and clears the nonce. Refused when not encrypted ("Payload is not
    /// encrypted"), and when the payload is longer than one keystream ("too
    /// large").
    pub fn decrypt(&mut self, key: &[u8; 32]) -> (r: Result<(), Error>)
        ensures
            old(self).encrypted matches Some(iv) ==> (old(self).data@.len() <= KEYSTREAM_LIMIT ==> r is Ok
                && final(self).encrypted is None
                && final(self).data@ == apply_cipher(old(self).data@, key@, iv@)),
            old(self).encrypted is Some && old(self).data@.len() > KEYSTREAM_LIMIT ==> r == Err::<(), Error>(Error::TooLarge)
                && final(self).data@ == old(self).data@ && final(self).encrypted == old(self).encrypted,
            old(self).encrypted is None ==> r == Err::<(), Error>(Error::NotEncrypted)
                && final(self).data@ == old(self).data@ && final(self).encrypted is None,
    {
        if self.encrypted.is_some() && self.data.len() as u64 > KEYSTREAM_LIMIT {
            return Err(Error::TooLarge);
        }
        match self.encrypted.take() {
            Some(iv) => {
                self.data = chacha20_apply(key, &iv, self.data.as_slice());
                Ok(())
            },
            None => Err(Error::NotEncrypted),
        }
    }
}

/// `data` xor the ChaCha20 keystream of `key` and `iv` as long as `data`.
pub open spec fn apply_cipher(data: Seq<u8>, key: Seq<u8>, iv: Seq<u8>) -> Seq<u8> {
    xor_bytes(data, chacha20_keystream(key, iv, data.len()))
}

/// Decrypting with the key and nonce a payload was encrypted under gives back
/// the bytes it held.
pub proof fn lemma_encrypt_decrypt(data: Seq<u8>, key: Seq<u8>, iv: Seq<u8>)
    ensures
        apply_cipher(apply_cipher(data, key, iv), key, iv) == data,
{
    lemma_xor_twice(data, chacha20_keystream(key, iv, data.len()));
}

/// The payload's cipher keeps the length and xors each byte with the
/// ChaCha20 keystream of the key and nonce.
pub proof fn lemma_apply_cipher_bytes(data: Seq<u8>, key: Seq<u8>, iv: Seq<u8>)
    ensures
        apply_cipher(data, key, iv).len() == data.len(),
        forall|i: int| 0 <= i < data.len() ==> #[trigger] apply_cipher(data, key, iv)[i]
            == data[i] ^ chacha20_keystream(key, iv, data.len())[i],
{
}

} // verus!
