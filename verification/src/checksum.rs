//! Values paired with the CRC-32 of their encoding.

use vstd::prelude::*;
use crate::encoding::Encode;
use crate::error::Error;

verus! {

/// One bit of the reflected CRC-32 (IEEE) register: shift right, and fold
/// in the polynomial when a one falls out.
pub open spec fn crc_step(s: u32) -> u32 {
    if s & 1u32 == 1u32 {
        (s >> 1u32) ^ 0xEDB8_8320u32
    } else {
        s >> 1u32
    }
}

/// The register after taking in one byte.
pub open spec fn crc_byte(s: u32, b: u8) -> u32 {
    crc_step(crc_step(crc_step(crc_step(crc_step(crc_step(crc_step(crc_step(s ^ (b as u32)))))))))
}

/// The register after taking in the bytes, starting from all ones.
pub open spec fn crc_register(data: Seq<u8>) -> u32
    decreases data.len(),
{
    if data.len() == 0 {
        0xFFFF_FFFFu32
    } else {
        crc_byte(crc_register(data.drop_last()), data.last())
    }
}

/// The CRC-32 (IEEE) checksum of a byte string: the final register, inverted.
pub open spec fn crc32(data: Seq<u8>) -> u32 {
    crc_register(data) ^ 0xFFFF_FFFFu32
}

/// `crc32fast::hash`: the CRC-32 (IEEE) checksum of the bytes, as the crate
/// documents it.
#[verifier::external_body]
fn crc32_hash(data: &[u8]) -> (r: u32)
    ensures
        r == crc32(data@),
{
    crc32fast::hash(data)
}

/// A value and the checksum of its encoding.
#[derive(Clone)]
pub struct Checksumed<T: Encode> {
    pub data: T,
    pub checksum: u32,
}

impl<T: Encode> Checksumed<T> {
    /// The checksum matches the encoding of the data.
    pub open spec fn is_intact(&self) -> bool {
        crc32(T::spec_encode(self.data@)) == self.checksum
    }

    /// Checksums the value.
    pub fn new(data: T) -> (r: Result<Self, Error>)
        ensures
            r matches Ok(c) && c.data == data && c.checksum == crc32(T::spec_encode(data@)),
            r matches Ok(c) && c.is_intact(),
    {
        let bytes = data.encode();
        let checksum = crc32_hash(bytes.as_slice());
        Ok(Checksumed { data, checksum })
    }

    /// Verifies the checksum: `Ok` exactly when it matches the data's encoding.
    pub fn verify(&self) -> (r: Result<(), Error>)
        ensures
            r is Ok <==> self.is_intact(),
            r is Err ==> r == Err::<(), Error>(Error::Corrupted),
    {
        let bytes = self.data.encode();
        if crc32_hash(bytes.as_slice()) == self.checksum {
            Ok(())
        } else {
            Err(Error::Corrupted)
        }
    }

    /// Returns the value when the checksum matches it.
    pub fn take(self) -> (r: Result<T, Error>)
        ensures
            self.is_intact() ==> r == Ok::<T, Error>(self.data),
            !self.is_intact() ==> r == Err::<T, Error>(Error::Corrupted),
    {
        match self.verify() {
            Ok(()) => Ok(self.data),
            Err(e) => Err(e),
        }
    }
}

/// Taking in a byte never merges two registers, nor two bytes into one register.
proof fn lemma_crc_byte_injective(s1: u32, s2: u32, b1: u8, b2: u8)
    requires
        crc_byte(s1, b1) == crc_byte(s2, b2),
        s1 == s2 || b1 == b2,
    ensures
        s1 == s2 && b1 == b2,
{
    let t1: u32 = s1 ^ (b1 as u32);
    let t2: u32 = s2 ^ (b2 as u32);
    assert(crc_step(crc_step(crc_step(crc_step(crc_step(crc_step(crc_step(crc_step(t1))))))))
        == crc_step(crc_step(crc_step(crc_step(crc_step(crc_step(crc_step(crc_step(t2)))))))) ==> t1 == t2) by (bit_vector);
    assert(s1 == s2 ==> (t1 == t2 ==> b1 == b2)) by (bit_vector)
        requires
            t1 == s1 ^ (b1 as u32),
            t2 == s2 ^ (b2 as u32);
    assert(b1 == b2 ==> (t1 == t2 ==> s1 == s2)) by (bit_vector)
        requires
            t1 == s1 ^ (b1 as u32),
            t2 == s2 ^ (b2 as u32);
}

/// The registers of two byte strings that differ in byte `i` alone differ
/// after every prefix that reaches past `i`.
proof fn lemma_registers_differ(data: Seq<u8>, i: int, b: u8, n: int)
    requires
        0 <= i < n <= data.len(),
        b != data[i],
    ensures
        crc_register(data.update(i, b).subrange(0, n)) != crc_register(data.subrange(0, n)),
    decreases n,
{
    let changed = data.update(i, b);
    let p1 = changed.subrange(0, n);
    let p2 = data.subrange(0, n);
    if n == i + 1 {
        assert(p1.drop_last() =~= p2.drop_last());
        if crc_register(p1) == crc_register(p2) {
            lemma_crc_byte_injective(crc_register(p1.drop_last()), crc_register(p2.drop_last()), p1.last(), p2.last());
        }
    } else {
        lemma_registers_differ(data, i, b, n - 1);
        assert(p1.drop_last() =~= changed.subrange(0, n - 1));
        assert(p2.drop_last() =~= data.subrange(0, n - 1));
        if crc_register(p1) == crc_register(p2) {
            lemma_crc_byte_injective(crc_register(p1.drop_last()), crc_register(p2.drop_last()), p1.last(), p2.last());
        }
    }
}

/// Changing one byte of a byte string changes its CRC-32.
pub proof fn lemma_crc32_detects_changed_byte(data: Seq<u8>, i: int, b: u8)
    requires
        0 <= i < data.len(),
        b != data[i],
    ensures
        crc32(data.update(i, b)) != crc32(data),
{
    lemma_registers_differ(data, i, b, data.len() as int);
    assert(data.update(i, b).subrange(0, data.len() as int) =~= data.update(i, b));
    assert(data.subrange(0, data.len() as int) =~= data);
    let r1 = crc_register(data.update(i, b));
    let r2 = crc_register(data);
    assert(r1 != r2 ==> r1 ^ 0xFFFF_FFFFu32 != r2 ^ 0xFFFF_FFFFu32) by (bit_vector);
}

/// A checksumed value whose data was changed so that its encoding differs
/// from the checksumed encoding in one byte no longer passes the check.
pub proof fn lemma_corruption_detected<T: Encode>(c: Checksumed<T>, corrupted: T::V, i: int, b: u8)
    requires
        c.is_intact(),
        0 <= i < T::spec_encode(c.data@).len(),
        b != T::spec_encode(c.data@)[i],
        T::spec_encode(corrupted) == T::spec_encode(c.data@).update(i, b),
    ensures
        crc32(T::spec_encode(corrupted)) != c.checksum,
{
    lemma_crc32_detects_changed_byte(T::spec_encode(c.data@), i, b);
}

/// The register step is the reflected IEEE polynomial: it gives the standard
/// CRC-32 check value, 0xCBF43926 for the ASCII digits "123456789".
pub proof fn lemma_crc32_check_value()
    ensures
        crc32(seq![49u8, 50u8, 51u8, 52u8, 53u8, 54u8, 55u8, 56u8, 57u8]) == 0xCBF4_3926u32,
{
    assert(crc_byte(0xFFFFFFFFu32, 49u8) == 0x7C231048u32) by (bit_vector);
    assert(crc_byte(0x7C231048u32, 50u8) == 0xB0ACBB32u32) by (bit_vector);
    assert(crc_byte(0xB0ACBB32u32, 51u8) == 0x77B79C2Du32) by (bit_vector);
    assert(crc_byte(0x77B79C2Du32, 52u8) == 0x641C1F5Cu32) by (bit_vector);
    assert(crc_byte(0x641C1F5Cu32, 53u8) == 0x340AC5E3u32) by (bit_vector);
    assert(crc_byte(0x340AC5E3u32, 54u8) == 0xF68D2C9Eu32) by (bit_vector);
    assert(crc_byte(0xF68D2C9Eu32, 55u8) == 0xAFFC9660u32) by (bit_vector);
    assert(crc_byte(0xAFFC9660u32, 56u8) == 0x651F2550u32) by (bit_vector);
    assert(crc_byte(0x651F2550u32, 57u8) == 0x340BC6D9u32) by (bit_vector);
    assert(crc_register(Seq::<u8>::empty()) == 0xFFFF_FFFFu32);
    assert(seq![49u8].drop_last() =~= Seq::<u8>::empty());
    assert(seq![49u8].last() == 49u8);
    assert(crc_register(seq![49u8]) == 0x7C231048u32);
    assert(seq![49u8, 50u8].drop_last() =~= seq![49u8]);
    assert(seq![49u8, 50u8].last() == 50u8);
    assert(crc_register(seq![49u8, 50u8]) == 0xB0ACBB32u32);
    assert(seq![49u8, 50u8, 51u8].drop_last() =~= seq![49u8, 50u8]);
    assert(seq![49u8, 50u8, 51u8].last() == 51u8);
    assert(crc_register(seq![49u8, 50u8, 51u8]) == 0x77B79C2Du32);
    assert(seq![49u8, 50u8, 51u8, 52u8].drop_last() =~= seq![49u8, 50u8, 51u8]);
    assert(seq![49u8, 50u8, 51u8, 52u8].last() == 52u8);
    assert(crc_register(seq![49u8, 50u8, 51u8, 52u8]) == 0x641C1F5Cu32);
    assert(seq![49u8, 50u8, 51u8, 52u8, 53u8].drop_last() =~= seq![49u8, 50u8, 51u8, 52u8]);
    assert(seq![49u8, 50u8, 51u8, 52u8, 53u8].last() == 53u8);
    assert(crc_register(seq![49u8, 50u8, 51u8, 52u8, 53u8]) == 0x340AC5E3u32);
    assert(seq![49u8, 50u8, 51u8, 52u8, 53u8, 54u8].drop_last() =~= seq![49u8, 50u8, 51u8, 52u8, 53u8]);
    assert(seq![49u8, 50u8, 51u8, 52u8, 53u8, 54u8].last() == 54u8);
    assert(crc_register(seq![49u8, 50u8, 51u8, 52u8, 53u8, 54u8]) == 0xF68D2C9Eu32);
    assert(seq![49u8, 50u8, 51u8, 52u8, 53u8, 54u8, 55u8].drop_last() =~= seq![49u8, 50u8, 51u8, 52u8, 53u8, 54u8]);
    assert(seq![49u8, 50u8, 51u8, 52u8, 53u8, 54u8, 55u8].last() == 55u8);
    assert(crc_register(seq![49u8, 50u8, 51u8, 52u8, 53u8, 54u8, 55u8]) == 0xAFFC9660u32);
    assert(seq![49u8, 50u8, 51u8, 52u8, 53u8, 54u8, 55u8, 56u8].drop_last() =~= seq![49u8, 50u8, 51u8, 52u8, 53u8, 54u8, 55u8]);
    assert(seq![49u8, 50u8, 51u8, 52u8, 53u8, 54u8, 55u8, 56u8].last() == 56u8);
    assert(crc_register(seq![49u8, 50u8, 51u8, 52u8, 53u8, 54u8, 55u8, 56u8]) == 0x651F2550u32);
    assert(seq![49u8, 50u8, 51u8, 52u8, 53u8, 54u8, 55u8, 56u8, 57u8].drop_last() =~= seq![49u8, 50u8, 51u8, 52u8, 53u8, 54u8, 55u8, 56u8]);
    assert(seq![49u8, 50u8, 51u8, 52u8, 53u8, 54u8, 55u8, 56u8, 57u8].last() == 57u8);
    assert(crc_register(seq![49u8, 50u8, 51u8, 52u8, 53u8, 54u8, 55u8, 56u8, 57u8]) == 0x340BC6D9u32);
    assert(0x340BC6D9u32 ^ 0xFFFF_FFFFu32 == 0xCBF4_3926u32) by (bit_vector);
}

/// A checksumed value is intact exactly when its checksum is the CRC-32 of
/// the data's encoding.
pub proof fn lemma_intact_is_crc<T: Encode>(c: Checksumed<T>)
    ensures
        c.is_intact() <==> c.checksum == crc_register(T::spec_encode(c.data@)) ^ 0xFFFF_FFFFu32,
{
}

} // verus!
