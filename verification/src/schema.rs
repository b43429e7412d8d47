//! The stored account records: username, reach, status, password, chats,
//! devices, preferences and profile. Text is held as UTF-8 bytes, times as
//! Unix seconds, dates as days since the epoch.

use vstd::prelude::*;
use crate::exchange::PKEcdh;
use crate::identity::Signed;
use crate::keychain::PKKeychain;
use crate::validation::{length_rule, max_rule, max_range, min_max_length, opt_length_rule, opt_min_max_length, RuleError};

verus! {

/// The largest profile picture, in bytes.
pub const MAX_PICTURE_SIZE: usize = 4194304;

/// A username of at most 16 bytes.
pub struct Username(pub Vec<u8>);

impl Username {
    /// A username of 1 to 16 bytes.
    pub open spec fn validity(&self) -> Result<(), RuleError> {
        length_rule(self.0@.len(), 1, 16)
    }

    /// Checks the username's rule.
    pub fn check_validity(&self) -> (r: Result<(), RuleError>)
        ensures
            r == self.validity(),
    {
        min_max_length(self.0.as_slice(), 1, 16)
    }
}

/// How to reach a user: email address and phone number.
pub struct Reach {
    pub email: Vec<u8>,
    pub phone: Vec<u8>,
}

/// An account's status: the ban (since when, why) if any, and its creation time.
pub struct Status {
    pub banned: Option<(i64, Vec<u8>)>,
    pub creation_date: i64,
}

impl Status {
    /// The account was not created after `now`.
    pub open spec fn validity(&self, now: i64) -> Result<(), RuleError> {
        max_rule(self.creation_date as int, now as int)
    }

    /// Checks the status's rule against the current time.
    pub fn check_validity(&self, now: i64) -> (r: Result<(), RuleError>)
        ensures
            r == self.validity(now),
    {
        max_range(self.creation_date, now)
    }
}

/// A password of at most 256 bytes.
pub struct Password(pub Vec<u8>);

impl Password {
    /// A password of 32 to 256 bytes.
    pub open spec fn validity(&self) -> Result<(), RuleError> {
        length_rule(self.0@.len(), 32, 256)
    }

    /// Checks the password's rule.
    pub fn check_validity(&self) -> (r: Result<(), RuleError>)
        ensures
            r == self.validity(),
    {
        min_max_length(self.0.as_slice(), 32, 256)
    }
}

/// A chat: when its first message was sent, where the peers met (in
/// micro-degrees of longitude and latitude) and the peer.
pub struct Chat {
    pub first_message: i64,
    pub encountered_at: (i64, i64),
    pub peer: [u8; 16],
}

impl Chat {
    /// The first message was not sent after `now`.
    pub open spec fn validity(&self, now: i64) -> Result<(), RuleError> {
        max_rule(self.first_message as int, now as int)
    }

    /// Checks the chat's rule against the current time.
    pub fn check_validity(&self, now: i64) -> (r: Result<(), RuleError>)
        ensures
            r == self.validity(now),
    {
        max_range(self.first_message, now)
    }
}

/// A device: the account it created, when it was registered and last seen.
pub struct Device {
    pub created_account: [u8; 16],
    pub registered: i64,
    pub last_seen: i64,
}

impl Device {
    /// Neither time lies after `now`.
    pub open spec fn validity(&self, now: i64) -> Result<(), RuleError> {
        if max_rule(self.registered as int, now as int) is Err {
            max_rule(self.registered as int, now as int)
        } else {
            max_rule(self.last_seen as int, now as int)
        }
    }

    /// Checks the device's rules against the current time.
    pub fn check_validity(&self, now: i64) -> (r: Result<(), RuleError>)
        ensures
            r == self.validity(now),
    {
        match max_range(self.registered, now) {
            Err(e) => Err(e),
            Ok(()) => max_range(self.last_seen, now),
        }
    }
}

/// Gender.
#[derive(Debug, Clone, Copy, PartialEq, Eq, Structural)]
pub enum Gender {
    Male,
    Female,
}

/// The search radius, in metres; 1000 by default.
#[derive(Debug, Clone, Copy, PartialEq, Eq, Structural)]
pub enum LocationRange {
    _100,
    _250,
    _500,
    _1000,
    _2000,
}

impl Default for LocationRange {
    fn default() -> (r: Self)
        ensures
            r == LocationRange::_1000,
    {
        LocationRange::_1000
    }
}

/// Search preferences: gender, age range (`start..end`) and radius.
#[derive(Debug, Clone, Copy)]
pub struct Preference {
    pub gender: Option<Gender>,
    pub age: Option<(u8, u8)>,
    pub range: LocationRange,
}

impl Preference {
    /// Creates preferences.
    pub fn new(gender: Option<Gender>, age: Option<(u8, u8)>, range: LocationRange) -> (r: Self)
        ensures
            r.gender == gender,
            r.age == age,
            r.range == range,
    {
        Preference { gender, age, range }
    }
}

impl Default for Preference {
    fn default() -> (r: Self)
        ensures
            r.gender is None,
            r.age is None,
            r.range == LocationRange::_1000,
    {
        Preference { gender: None, age: None, range: LocationRange::default() }
    }
}

/// A profile. The first and last names and the "about" text have room for
/// 16, 16 and 32 bytes; the picture for `MAX_PICTURE_SIZE` bytes.
pub struct Profile {
    pub first: Vec<u8>,
    pub last: Vec<u8>,
    pub picture: Option<Vec<u8>>,
    pub about: Option<Vec<u8>>,
    pub birth: i64,
    pub gender: Option<Gender>,
}

impl Profile {
    /// The fields fit the room the record has for them.
    pub open spec fn fits(&self) -> bool {
        &&& self.first@.len() <= 16
        &&& self.last@.len() <= 16
        &&& (self.picture matches Some(p) ==> p@.len() <= MAX_PICTURE_SIZE)
        &&& (self.about matches Some(a) ==> a@.len() <= 32)
    }

    /// The rules, in field order: a first name of 1 to 16 bytes, a last name
    /// of 32 to 256 bytes, an "about" text of 1 to 32 bytes, a birth date not
    /// after `today`.
    pub open spec fn validity(&self, today: i64) -> Result<(), RuleError> {
        if length_rule(self.first@.len(), 1, 16) is Err {
            length_rule(self.first@.len(), 1, 16)
        } else if length_rule(self.last@.len(), 32, 256) is Err {
            length_rule(self.last@.len(), 32, 256)
        } else if opt_length_rule(match self.about { Some(v) => Some(v@), None => None }, 1, 32) is Err {
            opt_length_rule(match self.about { Some(v) => Some(v@), None => None }, 1, 32)
        } else {
            max_rule(self.birth as int, today as int)
        }
    }

    /// Checks the profile's rules against the current date.
    pub fn check_validity(&self, today: i64) -> (r: Result<(), RuleError>)
        ensures
            r == self.validity(today),
    {
        match min_max_length(self.first.as_slice(), 1, 16) {
            Err(e) => return Err(e),
            Ok(()) => {},
        }
        match min_max_length(self.last.as_slice(), 32, 256) {
            Err(e) => return Err(e),
            Ok(()) => {},
        }
        match opt_min_max_length(&self.about, 1, 32) {
            Err(e) => return Err(e),
            Ok(()) => {},
        }
        max_range(self.birth, today)
    }
}

/// A device's session: its id, public keychain and published one-time keys.
pub struct Session {
    pub device_id: [u8; 32],
    pub keychain: PKKeychain,
    pub one_time: Vec<Signed<PKEcdh>>,
}

/// A profile whose last name fits its 16 bytes of room never passes the
/// rules: they ask for at least 32 bytes.
pub proof fn lemma_profile_last_name_never_valid(p: Profile, today: i64)
    requires
        p.fits(),
    ensures
        p.validity(today) is Err,
{
}

/// A username passes exactly when it has 1 to 16 bytes; an empty one is too
/// short and a longer one too long.
pub proof fn lemma_username_rule(u: Username)
    ensures
        u.validity() is Ok <==> 1 <= u.0@.len() && u.0@.len() <= 16,
        u.0@.len() == 0 ==> u.validity() == Err::<(), RuleError>(RuleError::TooShort),
        u.0@.len() > 16 ==> u.validity() == Err::<(), RuleError>(RuleError::TooLong),
{
}

/// A password passes exactly when it has 32 to 256 bytes; a shorter one is
/// too short and a longer one too long.
pub proof fn lemma_password_rule(p: Password)
    ensures
        p.validity() is Ok <==> 32 <= p.0@.len() && p.0@.len() <= 256,
        p.0@.len() < 32 ==> p.validity() == Err::<(), RuleError>(RuleError::TooShort),
        p.0@.len() > 256 ==> p.validity() == Err::<(), RuleError>(RuleError::TooLong),
{
}

/// A status passes exactly when the account was not created after `now`;
/// otherwise its date is too high.
pub proof fn lemma_status_rule(s: Status, now: i64)
    ensures
        s.creation_date <= now ==> s.validity(now) == Ok::<(), RuleError>(()),
        s.creation_date > now ==> s.validity(now) == Err::<(), RuleError>(RuleError::TooHigh),
{
}

/// A chat passes exactly when its first message was not sent after `now`;
/// otherwise its date is too high.
pub proof fn lemma_chat_rule(c: Chat, now: i64)
    ensures
        c.first_message <= now ==> c.validity(now) == Ok::<(), RuleError>(()),
        c.first_message > now ==> c.validity(now) == Err::<(), RuleError>(RuleError::TooHigh),
{
}

/// A device passes exactly when it was neither registered nor last seen
/// after `now`; otherwise a date is too high.
pub proof fn lemma_device_rule(d: Device, now: i64)
    ensures
        d.registered <= now && d.last_seen <= now ==> d.validity(now) == Ok::<(), RuleError>(()),
        d.registered > now || d.last_seen > now ==> d.validity(now) == Err::<(), RuleError>(RuleError::TooHigh),
{
}

/// A profile passes exactly when its first name has 1 to 16 bytes, its last
/// name 32 to 256, its "about" text (if any) 1 to 32, and its birth date is
/// not after `today`. The first rule broken, in that order, names the error.
pub proof fn lemma_profile_rules(p: Profile, today: i64)
    ensures
        p.validity(today) is Ok <==> (1 <= p.first@.len() && p.first@.len() <= 16
            && 32 <= p.last@.len() && p.last@.len() <= 256
            && (p.about matches Some(a) ==> 1 <= a@.len() && a@.len() <= 32)
            && p.birth <= today),
        p.first@.len() == 0 ==> p.validity(today) == Err::<(), RuleError>(RuleError::TooShort),
        p.first@.len() > 16 ==> p.validity(today) == Err::<(), RuleError>(RuleError::TooLong),
        1 <= p.first@.len() && p.first@.len() <= 16 && p.last@.len() < 32
            ==> p.validity(today) == Err::<(), RuleError>(RuleError::TooShort),
        1 <= p.first@.len() && p.first@.len() <= 16 && p.last@.len() > 256
            ==> p.validity(today) == Err::<(), RuleError>(RuleError::TooLong),
        1 <= p.first@.len() && p.first@.len() <= 16 && 32 <= p.last@.len() && p.last@.len() <= 256
            && (p.about matches Some(a) && a@.len() == 0) ==> p.validity(today) == Err::<(), RuleError>(RuleError::TooShort),
        1 <= p.first@.len() && p.first@.len() <= 16 && 32 <= p.last@.len() && p.last@.len() <= 256
            && (p.about matches Some(a) && a@.len() > 32) ==> p.validity(today) == Err::<(), RuleError>(RuleError::TooLong),
        1 <= p.first@.len() && p.first@.len() <= 16 && 32 <= p.last@.len() && p.last@.len() <= 256
            && (p.about matches Some(a) ==> 1 <= a@.len() && a@.len() <= 32) && p.birth > today
            ==> p.validity(today) == Err::<(), RuleError>(RuleError::TooHigh),
{
}

} // verus!
