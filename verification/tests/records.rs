use nearssage::error::Error;
use nearssage::keychain::{Keychainable, PKExchangePair, SKKeychain};
use nearssage::exchange::{Exchangeable, PKEcdh, SKEcdh};
use nearssage::identity::{SKIdentity, Signed};
use nearssage::protocol::codec::client::{Auth, Client, User};
use nearssage::schema::{Gender, LocationRange, Password, Preference, Profile, Status, Username};
use nearssage::server::user::{Preferences, Range, Specified};
use nearssage::session::bundle::Bundle;
use nearssage::session::{chain_key_derivation, key_exchange_derivation};
use nearssage::storage::{check_update, search, Found, Key};
use nearssage::validation::{max_range, min_max_length, RuleError};

fn profile(first: usize, last: usize, birth: i64) -> Profile {
    Profile {
        first: vec![b'a'; first],
        last: vec![b'b'; last],
        picture: None,
        about: None,
        birth,
        gender: Some(Gender::Female),
    }
}

#[test]
fn length_rules_count_bytes() {
    assert!(min_max_length("é".as_bytes(), 2, 2).is_ok());
    assert_eq!(min_max_length(b"", 1, 16), Err(RuleError::TooShort));
    assert_eq!(min_max_length(&[0u8; 17], 1, 16), Err(RuleError::TooLong));
    assert_eq!(max_range(11, 10), Err(RuleError::TooHigh));
    assert!(max_range(10, 10).is_ok());
}

#[test]
fn records_obey_their_rules() {
    assert_eq!(Username(vec![]).check_validity(), Err(RuleError::TooShort));
    assert!(Username(b"oscar".to_vec()).check_validity().is_ok());
    assert_eq!(Password(vec![b'x'; 31]).check_validity(), Err(RuleError::TooShort));
    assert!(Password(vec![b'x'; 32]).check_validity().is_ok());
    assert_eq!(Password(vec![b'x'; 257]).check_validity(), Err(RuleError::TooLong));
    let status = Status { banned: None, creation_date: 100 };
    assert!(status.check_validity(100).is_ok());
    assert_eq!(status.check_validity(99), Err(RuleError::TooHigh));
    // The last name has room for 16 bytes but must have at least 32.
    assert_eq!(profile(4, 16, 0).check_validity(10), Err(RuleError::TooShort));
    assert!(profile(4, 32, 0).check_validity(10).is_ok());
    assert_eq!(profile(0, 32, 0).check_validity(10), Err(RuleError::TooShort));
    assert_eq!(profile(4, 32, 11).check_validity(10), Err(RuleError::TooHigh));
}

#[test]
fn requests_obey_their_rules() {
    assert_eq!(User::Username(Some(vec![])).check_validity(0), Err(RuleError::TooShort));
    assert!(User::Username(None).check_validity(0).is_ok());
    assert_eq!(User::Password(vec![b'p'; 8]).check_validity(0), Err(RuleError::TooShort));
    assert!(User::Preferences(None).check_validity(0).is_ok());
    let request = Client::User(User::Profile(Some(profile(4, 32, 5))));
    assert!(request.check_validity(5).is_ok());
    assert_eq!(request.check_validity(4), Err(RuleError::TooHigh));
    assert!(Client::Auth(Auth::Challenge).check_validity(0).is_ok());
}

#[test]
fn preferences_default_and_radius() {
    let preference = Preference::default();
    assert!(preference.gender.is_none() && preference.age.is_none());
    assert!(preference.range == LocationRange::_1000);
    let chosen = Preference::new(Some(Gender::Female), None, LocationRange::default());
    assert!(chosen.gender == Some(Gender::Female));
    let server_side = Preferences::new(Specified::Given(nearssage::user::profile::Gender::Male), Range::_500);
    assert_eq!(server_side.range.metres(), 500);
    assert!(server_side.gender == Specified::Given(nearssage::user::profile::Gender::Male));
}

/// What a stored value came to against the predicate: decoded and equal,
/// decoded and different, or not decodable.
fn outcome(stored: &[u8], predicate: &str) -> Option<bool> {
    postcard::from_bytes::<String>(stored).ok().map(|v| v == predicate)
}

fn table(values: &[(&[u8; 16], Vec<u8>)], predicate: &str) -> Vec<(Vec<u8>, Option<bool>)> {
    values.iter().map(|(k, v)| (k.to_vec(), outcome(v, predicate))).collect()
}

#[test]
fn search_finds_the_matching_ids() {
    let a = [1u8; 16];
    let b = [2u8; 16];
    let c = [3u8; 16];
    let stored = |s: &str| postcard::to_allocvec(s).unwrap();
    let values = vec![(&a, stored("x")), (&b, stored("unique")), (&c, stored("x"))];
    match search::<[u8; 16]>(&table(&values, "unique"), true) {
        Ok(Found::Unique(Some(k))) => assert_eq!(k, b),
        _ => panic!("unique value's id not found"),
    }
    match search::<[u8; 16]>(&table(&values, "x"), false) {
        Ok(Found::All(keys)) => assert_eq!(keys, vec![a, c]),
        _ => panic!("ids not found"),
    }
    assert!(matches!(search::<[u8; 16]>(&table(&values, "none"), true), Ok(Found::Unique(None))));
    match search::<[u8; 16]>(&table(&values, "none"), false) {
        Ok(Found::All(keys)) => assert!(keys.is_empty()),
        _ => panic!("a search without matches fails"),
    }
    let bad = vec![(vec![1u8; 3], Some(true))];
    assert!(matches!(search::<[u8; 16]>(&bad, false), Err(Error::InvalidSize)));
    assert!(matches!(search::<[u8; 16]>(&bad, true), Err(Error::InvalidSize)));

    // A value that does not decode is refused, unless a unique search matched before it
    let broken = vec![(&a, stored("x")), (&b, vec![0xff]), (&c, stored("x"))];
    assert!(matches!(search::<[u8; 16]>(&table(&broken, "x"), false), Err(Error::Malformed)));
    match search::<[u8; 16]>(&table(&broken, "x"), true) {
        Ok(Found::Unique(Some(k))) => assert_eq!(k, a),
        _ => panic!("the first match was not found"),
    }
    assert!(matches!(search::<[u8; 16]>(&table(&broken, "y"), true), Err(Error::Malformed)));
    assert!(matches!(<[u8; 32] as Key>::into_key(&[0u8; 16]), Err(Error::InvalidSize)));
    assert_eq!(<[u8; 16] as Key>::into_key(Key::as_slice(&a)).unwrap(), a);
    assert!(matches!(check_update(false), Err(Error::MissingKey)));
    assert!(check_update(true).is_ok());
}

#[test]
fn derivations_use_their_contexts() {
    let material = [5u8; 40];
    assert_eq!(
        key_exchange_derivation(&material),
        blake3::derive_key("nearssage_commons Session's Secret Exchange", &material)
    );
    let (chain, message) = chain_key_derivation([9u8; 32]);
    assert_eq!(chain, blake3::derive_key("nearssage_commons Chain Key", &[9u8; 32]));
    assert_eq!(message, blake3::derive_key("nearssage_commons Message Key", &chain));
    assert_ne!(chain, message);
}

#[test]
fn keychain_refuses_foreign_signatures() {
    let keychain = SKKeychain::new();
    let public = keychain.public().unwrap();
    let keys: Result<(PKExchangePair, PKEcdh), Error> = Keychainable::take(&public);
    let (exchange, pre) = keys.unwrap();
    assert_eq!(exchange.0.0, keychain.exchange.0.0.0);
    assert_eq!(pre.0, keychain.pre_exchange.0.0);
    let mut tampered = public.clone();
    let stranger = SKIdentity::new();
    assert!(matches!(
        tampered.set_pre_exchange(Signed::new(&stranger, SKEcdh::new().pk_exchange())),
        Err(Error::InvalidSignature)
    ));
    assert_eq!(tampered.pre_exchange.0.0, pre.0);
    assert!(tampered.set_pre_exchange(Signed::new(keychain.sk_identity(), SKEcdh::new().pk_exchange())).is_ok());
    tampered.sign = stranger.pk_identity();
    assert!(matches!(tampered.take_keys(), Err(Error::InvalidSignature)));
    let bundle = Bundle::new(tampered, None).unwrap();
    assert!(matches!(bundle.agreement(SKKeychain::new()), Err(Error::InvalidSignature)));
    assert!(bundle.pk_one_time().is_none());
}

#[test]
fn keychain_renews_its_pre_exchange_key() {
    let mut keychain = SKKeychain::new();
    let before = keychain.pre_exchange.0 .0;
    keychain.new_pre_exchange();
    assert_ne!(keychain.pre_exchange.0 .0, before);
    assert!(keychain.take_keys().is_ok());
    let one_time = keychain.new_one_time();
    assert!(one_time.verify(keychain.sk_identity()).is_ok());
    let public = one_time.0.pk_exchange();
    assert!(public.same_key(&one_time.0.pk_exchange()));
    assert!(one_time.0.same_pair(&one_time.0));
    assert!(!public.same_key(&SKEcdh::new().pk_exchange()));
}
