//! BLAKE3 keyed hashing and key derivation, and byte comparison.

use vstd::prelude::*;

verus! {

/// The 32 bytes that `blake3::keyed_hash` gives for a key and an input.
pub uninterp spec fn blake3_keyed_hash(key: Seq<u8>, data: Seq<u8>) -> Seq<u8>;

/// `blake3::keyed_hash(key, data).as_bytes()`: a 32-byte function of the key and the input.
#[verifier::external_body]
pub(crate) fn keyed_hash(key: &[u8; 32], data: &[u8]) -> (r: [u8; 32])
    ensures
        r@ == blake3_keyed_hash(key@, data@),
{
    *blake3::keyed_hash(key, data).as_bytes()
}

/// Whether two byte arrays hold the same bytes.
pub fn bytes_equal(a: &[u8], b: &[u8]) -> (r: bool)
    ensures
        r <==> a@ == b@,
{
    if a.len() != b.len() {
        return false;
    }
    let mut i: usize = 0;
    while i < a.len()
        invariant
            a@.len() == b@.len(),
            i <= a@.len(),
            forall|j: int| 0 <= j < i ==> a@[j] == b@[j],
        decreases a@.len() - i,
    {
        if a[i] != b[i] {
            return false;
        }
        i = i + 1;
    }
    assert(a@ =~= b@);
    true
}

/// The 32-byte key that `blake3::derive_key` derives from a context string and key material.
pub uninterp spec fn blake3_derive_key(context: Seq<char>, material: Seq<u8>) -> Seq<u8>;

/// `blake3::derive_key(context, material)`: a 32-byte function of the context
/// and the key material.
#[verifier::external_body]
pub(crate) fn derive_key(context: &str, material: &[u8]) -> (r: [u8; 32])
    ensures
        r@ == blake3_derive_key(context@, material@),
{
    blake3::derive_key(context, material)
}

/// The sixteen bytes of a `u128`, most significant first (as `to_be_bytes`).
pub fn u128_be_bytes(value: u128) -> (r: [u8; 16])
    ensures
        forall|i: int| 0 <= i < 16 ==> #[trigger] r@[i] == ((value >> ((8 * (15 - i)) as u128)) & 0xff) as u8,
{
    let mut r: [u8; 16] = [0u8; 16];
    let mut i: usize = 0;
    while i < 16
        invariant
            i <= 16,
            forall|j: int| 0 <= j < i ==> #[trigger] r@[j] == ((value >> ((8 * (15 - j)) as u128)) & 0xff) as u8,
        decreases 16 - i,
    {
        let shift: u128 = (8 * (15 - i)) as u128;
        r[i] = ((value >> shift) & 0xff) as u8;
        i = i + 1;
    }
    r
}

} // verus!
