use nearssage::encoding::{Encode, Prefixed};
use nearssage::authenticated::Authenticated;
use nearssage::checksum::Checksumed;
use nearssage::compress::Compressed;
use nearssage::crypt::Crypt;
use nearssage::exchange::{Exchangeable, SKEcdh};
use nearssage::identity::{SKIdentity, Signature, Signed};
use nearssage::csidh::SKCsidh;
use nearssage::keychain::SKExchangePair;
use nearssage::payload::Payload;
use nearssage::keychain::SKKeychain;
use nearssage::session::bundle::Bundle;
use nearssage::session::initial::Initial;
use nearssage::session::Mode;

#[test]
fn authentication() {
    // Generate some random data
    let random_bytes: Vec<u8> = rand::random::<[u8; 32]>().to_vec();

    // Generates a random key for authentication
    let valid_key = &rand::random::<[u8; 32]>();

    // Authenticate the random data with the random key
    let authenticated = Authenticated::authenticate(valid_key, random_bytes).unwrap();

    // Check that the authenticated data is valid with the valid key
    assert!(authenticated.clone().validate(valid_key).is_ok());

    // Generates an invalid random key for validation
    let invalid_key = valid_key.map(|s| !s);

    // Check that the authenticated data is not valid with an invalid key
    assert!(authenticated.validate(&invalid_key).is_err());
}

#[test]
fn corrupted() {
    // Generate some random data
    let random_bytes: Vec<u8> = rand::random::<[u8; 32]>().to_vec();

    // Checksum the random data
    let checksumed_bytes = Checksumed::new(random_bytes).unwrap();

    // Check that the checksum is valid
    assert!(checksumed_bytes.verify().is_ok());

    // Corrupt the checksumed random data
    let mut corrupted_checksumed_bytes = checksumed_bytes.clone();
    let index = rand::Rng::gen_range(&mut rand::thread_rng(), 0..checksumed_bytes.data.len() - 1);
    corrupted_checksumed_bytes.data.get_mut(index).map(|s| *s = !*s);

    // Check that the checksum of the corrupted data is not valid
    assert!(corrupted_checksumed_bytes.verify().is_err());
}

#[test]
fn compress() {
    // Generate some random data
    let random_bytes: Vec<u8> = rand::random::<[u8; 32]>().to_vec();

    // Compress the random bytes
    let compressed = Compressed::new(&random_bytes).unwrap();

    // Check that the random bytes and the decompressed data are the same
    assert_eq!(compressed.take::<Vec<u8>>().unwrap() == random_bytes, true);
}

#[test]
fn crypt() {
    // Generate some random data
    let random_bytes: Vec<u8> = rand::random::<[u8; 32]>().to_vec();

    // Generates a random key for encryption
    let random_key = &rand::random::<[u8; 32]>();

    // Encrypts and decrypts the payload using the random key
    let encrypted = Crypt::new(random_bytes.clone(), random_key).unwrap();
    let decrypted = encrypted.clone().take(random_key).unwrap();

    // Check that the initial data and the decrypted data are the same
    assert_eq!(random_bytes == decrypted, true);
}

#[test]
fn ecdh() {
    // Generate a pair of keys
    let bob = SKEcdh::new();
    let alice = SKEcdh::new();

    // Get the public keys
    let pk_bob = bob.pk_exchange();
    let pk_alice = alice.pk_exchange();

    // Get Bob's shared secret using Alice's public key
    let bob_shared_secret = bob.get_secret(&pk_alice);

    // Get Alice's shared secret using Bob's public key
    let alice_shared_secret = alice.get_secret(&pk_bob);

    // Check that the shared secret is the some for both
    assert_eq!(bob_shared_secret, alice_shared_secret);
}

#[test]
fn encryption() {
    // Generate some random data
    let random_bytes: Vec<u8> = rand::random::<[u8; 32]>().to_vec();

    // Generate a payload with the random data
    let payload = Payload::new(&random_bytes).unwrap();

    // Generates a random key for encryption
    let random_key = &rand::random::<[u8; 32]>();

    // Encrypts and decrypts the payload using the random key
    let mut payload_encrypted = payload.clone();
    payload_encrypted.encrypt(random_key).unwrap();
    payload_encrypted.decrypt(random_key).unwrap();

    // Check that the initial payload and the payload's copy are the same
    assert_eq!(payload.same(&payload_encrypted), true);

    // Check that the initial's random data and the random data inside the payload are the same
    assert_eq!(payload_encrypted.deserialize::<Vec<u8>>().unwrap() == random_bytes, true);
}

#[test]
fn payload_encryption_changes_bytes_in_place() {
    let random_bytes: Vec<u8> = rand::random::<[u8; 32]>().to_vec();
    let payload = Payload::new(&random_bytes).unwrap();
    let key = &rand::random::<[u8; 32]>();

    let mut encrypted = payload.clone();
    encrypted.encrypt(key).unwrap();

    // The stored bytes are the ciphertext, of the same length, under a kept nonce
    assert!(encrypted.encrypted.is_some());
    assert_eq!(encrypted.data.len(), payload.data.len());
    assert!(encrypted.data != payload.data);
    assert!(encrypted.take_buffer().is_err());

    // A second encryption is refused and changes nothing
    let before = encrypted.clone();
    assert!(encrypted.encrypt(key).is_err());
    assert!(encrypted.same(&before));

    // Decrypting with another key does not give the plaintext back
    let mut wrong = encrypted.clone();
    let other_key = &rand::random::<[u8; 32]>();
    wrong.decrypt(other_key).unwrap();
    assert!(wrong.data != payload.data);

    // Decrypting twice is refused
    encrypted.decrypt(key).unwrap();
    assert!(encrypted.same(&payload));
    assert!(encrypted.decrypt(key).is_err());
}

#[test]
fn invalid_identity() {
    // Generate a pair of identities
    let valid_identity = SKIdentity::new();
    let invalid_identity = SKIdentity::new();

    // Generate some random data
    let random_bytes: Vec<u8> = rand::random::<[u8; 32]>().to_vec();

    // Sign the random data using the valid identity
    let signed_bytes = Signed::new(&valid_identity, random_bytes);

    // Check that the signature of the signed data with the valid identity is valid
    assert_eq!(signed_bytes.clone().take(&valid_identity).is_ok(), true);

    // Check that the signature of the signed data with the invalid identity is not valid
    assert_eq!(signed_bytes.take(&invalid_identity).is_ok(), false);
}

#[test]
fn bad_signature() {
    // Generate an identity
    let identity = SKIdentity::new();

    // Generate some random data
    let random_bytes: Vec<u8> = rand::random::<[u8; 32]>().to_vec();

    // Sign the random data using the valid identity
    let mut signed_bytes = Signed::new(&identity, random_bytes);

    // Check that the signature of the signed data with the valid signature is valid
    assert_eq!(signed_bytes.clone().take(&identity).is_ok(), true);

    // Changing signature
    signed_bytes.1 = Signature((1..1330).map(|_| rand::random::<u8>()).collect::<Vec<u8>>());

    // Check that the signature of the signed data with the invalid signature is not valid
    assert_eq!(signed_bytes.take(&identity).is_ok(), false);
}

#[test]
fn session_key_agreement() {
    let runtime = tokio::runtime::Runtime::new().unwrap();
    let (alice_csidh, bob_csidh) = runtime.block_on(async {
        let a = tokio::task::spawn_blocking(SKCsidh::new);
        let b = tokio::task::spawn_blocking(SKCsidh::new);
        (a.await.unwrap(), b.await.unwrap())
    });
    let alice_exchange: SKExchangePair = (SKEcdh::new(), alice_csidh);
    let bob_exchange: SKExchangePair = (SKEcdh::new(), bob_csidh);
    let alice_ephemeral = SKEcdh::new();
    let bob_pre = SKEcdh::new();
    let bob_one_time = SKEcdh::new();
    let public = |p: &SKExchangePair| (p.0.pk_exchange(), p.1.pk_exchange());
    let bob_public = public(&bob_exchange);
    let alice_public = public(&alice_exchange);

    // Alice computes the key as initiator from Bob's public keys, and Bob as
    // responder from Alice's
    let (alice_key, bob_key) = runtime.block_on(async move {
        let alice_side = tokio::task::spawn_blocking(move || {
            nearssage::session::session_key(
                Mode::Initiator(Some(bob_one_time.pk_exchange())),
                alice_exchange,
                alice_ephemeral,
                bob_public,
                bob_pre.pk_exchange(),
            )
        });
        let bob_side = tokio::task::spawn_blocking(move || {
            nearssage::session::session_key(
                Mode::Responder(Some(bob_one_time)),
                bob_exchange,
                bob_pre,
                alice_public,
                alice_ephemeral.pk_exchange(),
            )
        });
        (alice_side.await.unwrap().unwrap(), bob_side.await.unwrap().unwrap())
    });

    // Check that the session key is the same for both Alice and Bob
    assert_eq!(alice_key == bob_key, true);
}

#[test]
fn session_key() {
    // CSIDH is slow: independent work runs on blocking tasks.
    let runtime = tokio::runtime::Runtime::new().unwrap();

    // Generate a pair of keys
    let (bob, alice) = runtime.block_on(async {
        let bob = tokio::task::spawn_blocking(SKKeychain::new);
        let alice = tokio::task::spawn_blocking(SKKeychain::new);
        (bob.await.unwrap(), alice.await.unwrap())
    });

    // Generate Bob's one time keys
    let bob_sk_one_time = bob.new_one_time();
    let bob_pk_one_time = Signed::new(
        bob.sk_identity(),
        bob_sk_one_time.clone().take(bob.sk_identity()).unwrap().pk_exchange(),
    );

    // Generate Bob's bundle
    let bob_bundle = Bundle::new(bob.public().unwrap(), Some(bob_pk_one_time)).unwrap();

    // Alice uses Bob's bundle to get the session key
    let (pk_ephemeral, alice_sk_session) = bob_bundle.agreement(alice.clone()).unwrap();

    // Generate the initial message payload
    let initial_message = Initial::new(
        alice,
        bob.public().unwrap(),
        pk_ephemeral,
        bob_bundle.pk_one_time().transpose().map(|s| s.map(|s| s.to_owned())).unwrap(),
    )
    .unwrap();

    // The message carries the one time key Alice used
    assert!(initial_message.get_one_time().is_some());

    // Bob's calculates the session key from the initial message
    let bob_sk_session = initial_message.agreement(bob, Some(bob_sk_one_time)).unwrap();

    // Check that the session key is the same for both Alice and Bob
    assert_eq!(alice_sk_session == bob_sk_session, true);
}

#[test]
fn heights_are_written_big_endian() {
    let value: u128 = 0x0102_0304_0506_0708_090a_0b0c_0d0e_0f10;
    assert_eq!(nearssage::hash::u128_be_bytes(value), value.to_be_bytes());
    assert_eq!(nearssage::hash::u128_be_bytes(1)[15], 1);
    assert_eq!(nearssage::hash::u128_be_bytes(1)[0], 0);
}

#[test]
fn signed_keys_are_written_with_a_full_signature_room() {
    let identity = SKIdentity::new();
    let key = SKEcdh::new().pk_exchange();
    let signed = Signed::new(&identity, key);
    let bytes = signed.encode();
    let len = signed.1 .0.len();
    // The key's 32 bytes, the 1462 bytes of signature room, then the length
    assert_eq!(&bytes[32..32 + len], signed.1 .0.as_slice());
    assert!(bytes[32 + len..32 + 1462].iter().all(|b| *b == 0));
    let tail = &bytes[32 + 1462..];
    assert_eq!(tail, postcard::to_allocvec(&(len as u64)).unwrap().as_slice());
    let (back, used) = Signed::<nearssage::exchange::PKEcdh>::take_from(&bytes).unwrap();
    assert_eq!(used, bytes.len());
    assert!(back.1.same(&signed.1));
    assert!(back.take(&identity).is_ok());
}

#[test]
fn checksum_is_crc32_ieee_of_the_encoding() {
    // The encoding of the bytes "123456789" is their length (9), then the bytes
    let checksumed = Checksumed::new(b"123456789".to_vec()).unwrap();
    assert_eq!(checksumed.checksum, 0x3262_6e34);
}
