//! LZ4-compressed encodings of values.

use vstd::prelude::*;
use crate::encoding::{canonical, CodecError, Decode, Encode, postcard_bytes, postcard_decode_bytes, postcard_encode_bytes};
use crate::data::{Data, Serial};
use crate::error::Error;

verus! {

/// The output of `lz4_flex::compress_prepend_size`: the input's length as a
/// little-endian `u32`, then the LZ4 block.
pub uninterp spec fn lz4_compress(data: Seq<u8>) -> Seq<u8>;

/// What `lz4_flex::decompress_size_prepended` returns for a buffer: `None`
/// where it reports an error.
pub uninterp spec fn lz4_decompress(data: Seq<u8>) -> Option<Seq<u8>>;

/// `lz4_flex::compress_prepend_size`. The result is a function of the input,
/// and LZ4 is lossless: decompressing it gives the input back. The length
/// prefix is a `u32`, so inputs longer than that are left out.
#[verifier::external_body]
fn lz4_compress_bytes(data: &[u8]) -> (r: Vec<u8>)
    requires
        data@.len() <= u32::MAX,
    ensures
        r@ == lz4_compress(data@),
        lz4_decompress(r@) == Some(data@),
{
    lz4_flex::compress_prepend_size(data)
}

/// `lz4_flex::decompress_size_prepended`, its error mapped to `None`.
#[verifier::external_body]
fn lz4_decompress_bytes(data: &[u8]) -> (r: Option<Vec<u8>>)
    ensures
        r is Some <==> lz4_decompress(data@) is Some,
        r is Some ==> lz4_decompress(data@) == Some(r.unwrap()@),
{
    lz4_flex::decompress_size_prepended(data).ok()
}

/// The LZ4-compressed encoding of a value.
pub struct Compressed(pub Vec<u8>);

impl Clone for Compressed {
    fn clone(&self) -> (r: Self)
        ensures
            r@ == self@,
    {
        Compressed(self.0.clone())
    }
}

impl View for Compressed {
    type V = Seq<u8>;

    open spec fn view(&self) -> Seq<u8> {
        self.0@
    }
}

impl Encode for Compressed {
    open spec fn spec_encode(v: Seq<u8>) -> Seq<u8> {
        postcard_bytes(v)
    }

    fn encode(&self) -> (r: Vec<u8>) {
        postcard_encode_bytes(self.0.as_slice())
    }
}

impl Decode for Compressed {
    fn decode(data: &[u8]) -> (r: Result<Self, CodecError>) {
        match postcard_decode_bytes(data) {
            Some(bytes) => canonical(Compressed(bytes), data),
            None => Err(CodecError::Malformed),
        }
    }
}

impl Compressed {
    /// The FlexBuffer this compressed buffer holds, if it decompresses.
    pub open spec fn contents(&self) -> Option<Seq<u8>> {
        lz4_decompress(self@)
    }

    /// Serializes and compresses a value. Refused when the serialization is
    /// longer than the `u32` size prefix of LZ4 can record ("too large").
    pub fn new<T: Serial>(data: &T) -> (r: Result<Self, Error>)
        ensures
            T::spec_serialize(data@).len() > u32::MAX ==> r == Err::<Self, Error>(Error::TooLarge),
            T::spec_serialize(data@).len() <= u32::MAX ==> (r matches Ok(c) && c@ == lz4_compress(T::spec_serialize(data@))
                && c.contents() == Some(T::spec_serialize(data@))
                && T::spec_deserialize(c.contents().unwrap()) == Some(data@)),
    {
        let bytes = match Data::serialize(data) {
            Ok(b) => b,
            Err(e) => return Err(e),
        };
        if bytes.len() as u64 > u32::MAX as u64 {
            return Err(Error::TooLarge);
        }
        Ok(Compressed(lz4_compress_bytes(bytes.as_slice())))
    }

    /// Compresses bytes that already hold a serialized value.
    pub fn from_serialized(bytes: &[u8]) -> (r: Self)
        requires
            bytes@.len() <= u32::MAX,
        ensures
            r@ == lz4_compress(bytes@),
            r.contents() == Some(bytes@),
    {
        Compressed(lz4_compress_bytes(bytes))
    }

    /// The serialized value the buffer holds ("Decompression failed").
    pub fn decompress(&self) -> (r: Result<Vec<u8>, Error>)
        ensures
            self.contents() is None ==> r == Err::<Vec<u8>, Error>(Error::DecompressionFailed),
            self.contents() is Some ==> (r matches Ok(b) && Some(b@) == self.contents()),
    {
        match lz4_decompress_bytes(self.0.as_slice()) {
            None => Err(Error::DecompressionFailed),
            Some(bytes) => Ok(bytes),
        }
    }

    /// Decompresses and deserializes the value ("Decompression failed").
    pub fn take<T: Serial>(self) -> (r: Result<T, Error>)
        ensures
            self.contents() is None ==> r == Err::<T, Error>(Error::DecompressionFailed),
            self.contents() is Some && T::spec_deserialize(self.contents().unwrap()) is None
                ==> r == Err::<T, Error>(Error::Malformed),
            self.contents() is Some && T::spec_deserialize(self.contents().unwrap()) is Some
                ==> (r matches Ok(w) && Some(w@) == T::spec_deserialize(self.contents().unwrap())),
    {
        match lz4_decompress_bytes(self.0.as_slice()) {
            None => Err(Error::DecompressionFailed),
            Some(bytes) => Data::deserialize(&bytes),
        }
    }
}

/// A compressed buffer holds the bytes LZ4 decompresses it to, if any.
pub proof fn lemma_contents_is_lz4(c: Compressed)
    ensures
        c.contents() == lz4_decompress(c.0@),
{
}

} // verus!
