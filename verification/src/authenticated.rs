//! Values paired with a keyed BLAKE3 hash of their encoding.

use vstd::prelude::*;
use crate::encoding::Encode;
use crate::error::Error;
use crate::hash::{blake3_keyed_hash, bytes_equal, keyed_hash};

verus! {

/// A value and the keyed hash that authenticates it.
#[derive(Clone)]
pub struct Authenticated<T: Encode> {
    pub data: T,
    pub code: [u8; 32],
}

impl<T: Encode> Authenticated<T> {
    /// The authentication code matches the data under the key.
    pub open spec fn authentic(&self, key: Seq<u8>) -> bool {
        blake3_keyed_hash(key, T::spec_encode(self.data@)) == self.code@
    }

    /// Authenticates the value with `key`.
    pub fn authenticate(key: &[u8; 32], data: T) -> (r: Result<Self, Error>)
        ensures
            r matches Ok(a) && a.data == data && a.code@ == blake3_keyed_hash(key@, T::spec_encode(data@)),
            r matches Ok(a) && a.authentic(key@),
    {
        let bytes = data.encode();
        let code = keyed_hash(key, bytes.as_slice());
        Ok(Authenticated { data, code })
    }

    /// Returns the value when its code matches under `key`.
    pub fn validate(self, key: &[u8; 32]) -> (r: Result<T, Error>)
        ensures
            self.authentic(key@) ==> r == Ok::<T, Error>(self.data),
            !self.authentic(key@) ==> r == Err::<T, Error>(Error::IntegrityCompromised),
    {
        let bytes = self.data.encode();
        let code = keyed_hash(key, bytes.as_slice());
        if bytes_equal(&code, &self.code) {
            Ok(self.data)
        } else {
            Err(Error::IntegrityCompromised)
        }
    }
}

/// An authenticated value is authentic under a key exactly when its code is
/// the keyed BLAKE3 hash, under that key, of the value's encoding.
pub proof fn lemma_authentic_is_keyed_hash<T: Encode>(a: Authenticated<T>, key: Seq<u8>)
    ensures
        a.authentic(key) <==> a.code@ == blake3_keyed_hash(key, T::spec_encode(a.data@)),
{
}

} // verus!
