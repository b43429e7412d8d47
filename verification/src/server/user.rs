//! The server's account records: the user with its password, and the search
//! preferences the server matches on.

use vstd::prelude::*;
use crate::user::profile::Gender;
use crate::validation::{length_rule, min_max_length, RuleError};

verus! {

/// A preference that may be left unspecified.
#[derive(Debug, Clone, Copy, PartialEq, Eq, Structural)]
pub enum Specified<T> {
    /// The preference, specified.
    Given(T),
    /// No preference.
    Unspecified,
}

/// The search radius the server matches on, in metres.
#[derive(Debug, Clone, Copy, PartialEq, Eq, Structural)]
pub enum Range {
    _250,
    _500,
    _1000,
}

impl Range {
    /// The radius in metres.
    pub fn metres(&self) -> (r: u32)
        ensures
            r == match self {
                Range::_250 => 250u32,
                Range::_500 => 500u32,
                Range::_1000 => 1000u32,
            },
    {
        match self {
            Range::_250 => 250,
            Range::_500 => 500,
            Range::_1000 => 1000,
        }
    }
}

/// A user's search preferences: gender and radius.
#[derive(Debug, Clone, Copy, PartialEq, Eq, Structural)]
pub struct Preferences {
    pub gender: Specified<Gender>,
    pub range: Range,
}

impl Preferences {
    /// Creates preferences.
    pub fn new(gender: Specified<Gender>, range: Range) -> (r: Self)
        ensures
            r == (Preferences { gender, range }),
    {
        Preferences { gender, range }
    }
}

/// A user account as the server keeps it: the user record and its password.
pub struct User {
    pub user: crate::user::User,
    pub password: Vec<u8>,
}

impl User {
    /// Creates the record.
    pub fn new(user: crate::user::User, password: Vec<u8>) -> (r: Self)
        ensures
            r.user == user,
            r.password == password,
    {
        User { user, password }
    }

    /// The record's rule: a password of 32 to 256 bytes.
    pub open spec fn validity(&self) -> Result<(), RuleError> {
        length_rule(self.password@.len(), 32, 256)
    }

    /// Checks the record's rule.
    pub fn check_validity(&self) -> (r: Result<(), RuleError>)
        ensures
            r == self.validity(),
    {
        min_max_length(self.password.as_slice(), 32, 256)
    }
}

/// A server's user record passes exactly when its password has 32 to 256
/// bytes; a shorter one is too short, a longer one too long.
pub proof fn lemma_password_record_rule(u: User)
    ensures
        u.validity() is Ok <==> 32 <= u.password@.len() && u.password@.len() <= 256,
        u.password@.len() < 32 ==> u.validity() == Err::<(), RuleError>(RuleError::TooShort),
        u.password@.len() > 256 ==> u.validity() == Err::<(), RuleError>(RuleError::TooLong),
{
}

} // verus!
