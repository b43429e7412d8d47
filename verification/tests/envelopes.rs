use nearssage::compress::Compressed;
use nearssage::crypt::Crypt;
use nearssage::data::Data;
use nearssage::encoding::{Decode, Encode};
use nearssage::error::Error;
use nearssage::payload::Payload;
use nearssage::protocol::network_buf::{NetworkBuf, BUF_SIZE, REDUCED_BUF_SIZE};
use nearssage::user::device::{CheckDevices, Device};
use nearssage::user::preferences::{Disclosed, LocationRange, Preferences};
use nearssage::user::profile::{Gender, Name, Profile};
use nearssage::user::status::Status;
use nearssage::user::User;
use nearssage::validation::RuleError;

#[test]
fn payload_refuses_double_encryption() {
    let key = [1u8; 32];
    let mut payload = Payload::new(&vec![1u8, 2, 3]).unwrap();
    assert!(matches!(payload.decrypt(&key), Err(Error::NotEncrypted)));
    payload.encrypt(&key).unwrap();
    assert!(matches!(payload.take_buffer(), Err(Error::AlreadyEncrypted)));
    assert!(matches!(payload.encrypt(&key), Err(Error::AlreadyEncrypted)));
    payload.decrypt(&key).unwrap();
    assert!(payload.take_buffer().is_ok());
}

#[test]
fn data_and_compression_round_trip() {
    let value = vec![4u8; 100];
    let serialized = Data::serialize(&value).unwrap();
    assert_eq!(Data::deserialize::<Vec<u8>>(&serialized).unwrap(), value);
    assert_eq!(serialized, flexbuffers::to_vec(&value).unwrap());
    assert!(matches!(Data::deserialize::<Vec<u8>>(&vec![0xffu8]), Err(Error::Malformed)));

    let compressed = Compressed::new(&value).unwrap();
    let wire = compressed.encode();
    let read = Compressed::decode(&wire).unwrap();
    assert_eq!(read.decompress().unwrap(), serialized);
    assert_eq!(read.take::<Vec<u8>>().unwrap(), value);
    assert!(matches!(Compressed(vec![9u8, 9, 9]).take::<Vec<u8>>(), Err(Error::DecompressionFailed)));
    assert_eq!(Compressed::from_serialized(&serialized).0, lz4_flex::compress_prepend_size(&serialized));
}

#[test]
fn crypt_with_wrong_key_does_not_give_the_value_back() {
    let value = vec![7u8; 32];
    let mut encrypted = Crypt::new(value.clone(), &[2u8; 32]).unwrap();
    assert_ne!(encrypted.data, postcard::to_allocvec(&value).unwrap());
    match encrypted.take(&[3u8; 32]) {
        Ok(other) => assert_ne!(other, value),
        Err(e) => assert!(matches!(e, Error::Malformed)),
    }
    assert_eq!(encrypted.take(&[2u8; 32]).unwrap(), value);
}

#[test]
fn network_buffer_sizes() {
    let mut buf = NetworkBuf::new();
    assert_eq!(buf.contents().len(), REDUCED_BUF_SIZE);
    assert_eq!(buf.buffer(true).len(), 4096);
    let full = buf.buffer(false);
    assert_eq!(full.len(), BUF_SIZE);
    full[0] = 5;
    assert_eq!(buf.contents()[0], 5);
}

fn user(devices: Vec<Device>) -> User {
    User {
        id: [0u8; 16],
        status: Status::Active,
        username: b"oscar".to_vec(),
        profile: Profile {
            name: Name { first: b"Oscar".to_vec(), last: b"Nearby".to_vec() },
            picture: vec![],
            about: None,
            birth: 0,
            gender: Some(Gender::Male),
        },
        email: b"oscar@example.com".to_vec(),
        phone: b"+34600000000".to_vec(),
        preferences: Preferences {
            gender: Disclosed::Shown(Gender::Female),
            age: Disclosed::Withheld,
            range: LocationRange::_500,
        },
        creation_date: 0,
        chat: vec![],
        device: devices,
    }
}

fn device(id: usize, name: usize) -> Device {
    Device {
        id: vec![b'd'; id],
        one_time: vec![],
        name: vec![b'n'; name],
        created: 0,
        last_seen: 0,
        created_account: true,
        expired: false,
    }
}

#[test]
fn user_rules_report_the_first_broken_one() {
    assert!(user(vec![device(1, 0), device(32, 16)]).check_validity().is_ok());
    assert_eq!(user(vec![device(1, 0), device(0, 17)]).check_validity(), Err(RuleError::TooShort));
    assert_eq!(CheckDevices().check(&vec![device(3, 17), device(0, 0)]), Err(RuleError::TooLong));
    let mut unnamed = user(vec![]);
    unnamed.username = vec![];
    assert_eq!(unnamed.check_validity(), Err(RuleError::TooShort));
    assert_eq!(Status::Banned(0, Some(vec![0u8; 129])).check_validity(), Err(RuleError::TooLong));
    assert_eq!(LocationRange::_2000.metres(), 2000);
}
