//! A user's public profile.

use vstd::prelude::*;
use crate::validation::{length_rule, min_max_length, opt_length_rule, opt_min_max_length, RuleError};

verus! {

/// A user's first and last name.
pub struct Name {
    pub first: Vec<u8>,
    pub last: Vec<u8>,
}

impl Name {
    /// A first name of 1 to 16 bytes and a last name of 1 to 32 bytes.
    pub open spec fn validity(&self) -> Result<(), RuleError> {
        if length_rule(self.first@.len(), 1, 16) is Err {
            length_rule(self.first@.len(), 1, 16)
        } else {
            length_rule(self.last@.len(), 1, 32)
        }
    }

    /// Checks the name's rules.
    pub fn check_validity(&self) -> (r: Result<(), RuleError>)
        ensures
            r == self.validity(),
    {
        match min_max_length(self.first.as_slice(), 1, 16) {
            Err(e) => Err(e),
            Ok(()) => min_max_length(self.last.as_slice(), 1, 32),
        }
    }
}

/// Gender.
#[derive(Debug, Clone, Copy, PartialEq, Eq, Structural)]
pub enum Gender {
    Male,
    Female,
}

/// A user's public profile; the birth date is in days since the Unix epoch.
pub struct Profile {
    pub name: Name,
    pub picture: Vec<u8>,
    pub about: Option<Vec<u8>>,
    pub birth: i64,
    pub gender: Option<Gender>,
}

impl Profile {
    /// A valid name and an "about" text of at most 256 bytes.
    pub open spec fn validity(&self) -> Result<(), RuleError> {
        if self.name.validity() is Err {
            self.name.validity()
        } else {
            opt_length_rule(match self.about { Some(v) => Some(v@), None => None }, 0, 256)
        }
    }

    /// Checks the profile's rules.
    pub fn check_validity(&self) -> (r: Result<(), RuleError>)
        ensures
            r == self.validity(),
    {
        match self.name.check_validity() {
            Err(e) => Err(e),
            Ok(()) => opt_min_max_length(&self.about, 0, 256),
        }
    }
}

/// A name passes exactly when its first name has 1 to 16 bytes and its last
/// name 1 to 32; the first name's rule is reported first.
pub proof fn lemma_name_rules(n: Name)
    ensures
        n.validity() is Ok <==> 1 <= n.first@.len() && n.first@.len() <= 16 && 1 <= n.last@.len() && n.last@.len() <= 32,
        n.first@.len() == 0 ==> n.validity() == Err::<(), RuleError>(RuleError::TooShort),
        n.first@.len() > 16 ==> n.validity() == Err::<(), RuleError>(RuleError::TooLong),
        1 <= n.first@.len() && n.first@.len() <= 16 && n.last@.len() == 0 ==> n.validity() == Err::<(), RuleError>(RuleError::TooShort),
        1 <= n.first@.len() && n.first@.len() <= 16 && n.last@.len() > 32 ==> n.validity() == Err::<(), RuleError>(RuleError::TooLong),
{
}

/// A profile passes exactly when its name passes and its "about" text, if
/// any, has at most 256 bytes (otherwise too long).
pub proof fn lemma_profile_rules(p: Profile)
    ensures
        p.validity() is Ok <==> p.name.validity() is Ok && (p.about matches Some(a) ==> a@.len() <= 256),
        p.name.validity() is Err ==> p.validity() == p.name.validity(),
        p.name.validity() is Ok && (p.about matches Some(a) && a@.len() > 256) ==> p.validity() == Err::<(), RuleError>(RuleError::TooLong),
{
}

} // verus!
