use nearssage::error::Error;
use nearssage::server::keypair::{decode_signing_keypair, encode_signing_keypair};

#[test]
fn signing_keypair_text_reads_back() {
    let serialized: Vec<u8> = (0..3000u32).map(|i| (i % 251) as u8).collect();
    let text = encode_signing_keypair(&serialized).unwrap();
    // The text is base64 without padding
    assert!(text.iter().all(|b| b.is_ascii_alphanumeric() || *b == b'+' || *b == b'/'));
    assert_eq!(decode_signing_keypair(&text).unwrap(), serialized);
}

#[test]
fn signing_keypair_text_must_be_base64() {
    assert_eq!(decode_signing_keypair(b"!!!!"), Err(Error::InvalidBase64));
}

#[test]
fn signing_keypair_text_must_hold_a_compressed_buffer() {
    // base64 of [5]: a length of five with no bytes after it
    assert_eq!(decode_signing_keypair(b"BQ"), Err(Error::Malformed));
    // base64 of [2, 1, 2]: a buffer of two bytes that is no LZ4 block
    assert_eq!(decode_signing_keypair(b"AgEC"), Err(Error::DecompressionFailed));
}
