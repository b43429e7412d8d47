//! The server's signing keypair as configured: the base64 text of the
//! encoded, LZ4-compressed serialization of its identity.

use vstd::prelude::*;
use crate::compress::{lz4_compress, lz4_decompress, Compressed};
use crate::encoding::{postcard_bytes, Decode, Encode};
use crate::error::Error;

verus! {

/// What `BASE64_STANDARD_NO_PAD.decode` returns for a text: `None` where it
/// reports an error.
pub uninterp spec fn base64_decode(text: Seq<u8>) -> Option<Seq<u8>>;

/// The text `BASE64_STANDARD_NO_PAD.encode` writes for bytes, as its bytes.
pub uninterp spec fn base64_encode(data: Seq<u8>) -> Seq<u8>;

/// `BASE64_STANDARD_NO_PAD.decode(text)`, its error mapped to `None`. The
/// outcome is a function of the text.
#[verifier::external_body]
fn base64_decode_bytes(text: &[u8]) -> (r: Option<Vec<u8>>)
    ensures
        r is Some <==> base64_decode(text@) is Some,
        r is Some ==> base64_decode(text@) == Some(r.unwrap()@),
{
    base64::Engine::decode(&base64::engine::general_purpose::STANDARD_NO_PAD, text).ok()
}

/// `BASE64_STANDARD_NO_PAD.encode(data)`, as the bytes of the text. The text
/// is a function of the input, and the same engine decodes it back to the
/// input. The engine panics when the output length overflows `usize`, hence
/// the `requires`.
#[verifier::external_body]
fn base64_encode_bytes(data: &[u8]) -> (r: Vec<u8>)
    requires
        data@.len() <= usize::MAX / 2,
    ensures
        r@ == base64_encode(data@),
        base64_decode(r@) == Some(data@),
{
    base64::Engine::encode(&base64::engine::general_purpose::STANDARD_NO_PAD, data).into_bytes()
}

/// The configured text of a serialized keypair.
pub open spec fn keypair_text(serialized: Seq<u8>) -> Seq<u8> {
    base64_encode(postcard_bytes(lz4_compress(serialized)))
}

/// Reads the serialized keypair from its configured text: base64, then the
/// encoded compressed buffer, then decompression. Refused: text that is not
/// base64 ("Invalid base64"), bytes that hold no compressed buffer, and a
/// buffer that does not decompress.
pub fn decode_signing_keypair(encoded: &[u8]) -> (r: Result<Vec<u8>, Error>)
    ensures
        base64_decode(encoded@) is None ==> r == Err::<Vec<u8>, Error>(Error::InvalidBase64),
        base64_decode(encoded@) matches Some(raw) ==> forall|c: Seq<u8>| #[trigger] postcard_bytes(c) == raw ==> match lz4_decompress(c) {
            Some(s) => r matches Ok(b) && b@ == s,
            None => r == Err::<Vec<u8>, Error>(Error::DecompressionFailed),
        },
        base64_decode(encoded@) matches Some(raw) ==> ((forall|c: Seq<u8>| #[trigger] postcard_bytes(c) != raw)
            ==> r == Err::<Vec<u8>, Error>(Error::Malformed)),
        r is Err ==> r == Err::<Vec<u8>, Error>(Error::InvalidBase64) || r == Err::<Vec<u8>, Error>(Error::Malformed)
            || r == Err::<Vec<u8>, Error>(Error::DecompressionFailed),
{
    let raw = match base64_decode_bytes(encoded) {
        Some(raw) => raw,
        None => return Err(Error::InvalidBase64),
    };
    let compressed = match Compressed::decode(raw.as_slice()) {
        Ok(c) => c,
        Err(_) => {
            proof {
                assert forall|c: Seq<u8>| #[trigger] postcard_bytes(c) == raw@ implies false by {
                    assert(Compressed::spec_encode(c) == raw@);
                }
            }
            return Err(Error::Malformed);
        },
    };
    proof {
        assert forall|c: Seq<u8>| #[trigger] postcard_bytes(c) == raw@ implies compressed@ == c by {
            assert(Compressed::spec_encode(c) == raw@);
        }
    }
    compressed.decompress()
}

/// Writes the configured text of a serialized keypair: compressed, encoded,
/// then base64. Refused when the encoded buffer is too long for base64 to
/// write ("too large"). The text reads back with `decode_signing_keypair`.
pub fn encode_signing_keypair(serialized: &[u8]) -> (r: Result<Vec<u8>, Error>)
    requires
        serialized@.len() <= u32::MAX,
    ensures
        postcard_bytes(lz4_compress(serialized@)).len() > usize::MAX / 2 ==> r == Err::<Vec<u8>, Error>(Error::TooLarge),
        postcard_bytes(lz4_compress(serialized@)).len() <= usize::MAX / 2 ==> (r matches Ok(t) && t@ == keypair_text(serialized@)),
        r is Ok ==> base64_decode(keypair_text(serialized@)) == Some(postcard_bytes(lz4_compress(serialized@)))
            && lz4_decompress(lz4_compress(serialized@)) == Some(serialized@),
{
    let raw = Compressed::from_serialized(serialized).encode();
    if raw.len() > usize::MAX / 2 {
        return Err(Error::TooLarge);
    }
    Ok(base64_encode_bytes(raw.as_slice()))
}

/// The configured text of a serialized keypair is the base64 (without
/// padding) of the LZ4-compressed serialization written as a length-prefixed
/// byte string.
pub proof fn lemma_keypair_text_layout(serialized: Seq<u8>)
    ensures
        keypair_text(serialized) == base64_encode(
            crate::encoding::varint(lz4_compress(serialized).len()) + lz4_compress(serialized)),
{
}

} // verus!
