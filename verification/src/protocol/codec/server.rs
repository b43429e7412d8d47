//! What the server answers, and the rules an answer obeys.

use vstd::prelude::*;
use crate::schema::{Password, Preference, Profile, Reach, Status, Username};
use crate::validation::RuleError;
use super::{Challenge, Elevate, Login, Register};

verus! {

/// The server's answer.
pub enum Server {
    Auth(Auth),
    Session(Session),
    User(User),
}

/// Answers to authentication requests: `None` on success, else why not.
pub enum Auth {
    Login(Option<Login>),
    Register(Option<Register>),
    Challenge(Option<Challenge>),
    Elevate(Option<Elevate>),
}

/// Answers to session requests.
pub enum Session {
    OneTime(Option<()>),
    Invalidate,
}

/// Account records sent to the client.
pub enum User {
    Username(Username),
    Reach(Reach),
    Status(Status),
    Profile(Profile),
    Preferences(Preference),
    Password(Option<()>),
}

impl User {
    /// A record's rules: a username of 1 to 16 bytes, a status created by
    /// `now`, a profile that passes its rules on `today`.
    pub open spec fn validity(&self, now: i64, today: i64) -> Result<(), RuleError> {
        match self {
            User::Username(u) => u.validity(),
            User::Status(s) => s.validity(now),
            User::Profile(p) => p.validity(today),
            _ => Ok(()),
        }
    }

    /// Checks the record's rules.
    pub fn check_validity(&self, now: i64, today: i64) -> (r: Result<(), RuleError>)
        ensures
            r == self.validity(now, today),
    {
        match self {
            User::Username(u) => u.check_validity(),
            User::Status(s) => s.check_validity(now),
            User::Profile(p) => p.check_validity(today),
            _ => Ok(()),
        }
    }
}

impl Server {
    /// An answer's rules: those of the account record it carries.
    pub open spec fn validity(&self, now: i64, today: i64) -> Result<(), RuleError> {
        match self {
            Server::User(u) => u.validity(now, today),
            _ => Ok(()),
        }
    }

    /// Checks the answer's rules.
    pub fn check_validity(&self, now: i64, today: i64) -> (r: Result<(), RuleError>)
        ensures
            r == self.validity(now, today),
    {
        match self {
            Server::User(u) => u.check_validity(now, today),
            _ => Ok(()),
        }
    }
}

/// An answer's rules are those of the account record it carries: a username
/// of 1 to 16 bytes, a status not created after `now`, a profile that passes
/// on `today`; other answers always pass.
pub proof fn lemma_answer_rules(a: Server, now: i64, today: i64)
    ensures
        a matches Server::User(User::Username(u)) ==> (a.validity(now, today) is Ok <==> 1 <= u.0@.len() && u.0@.len() <= 16),
        a matches Server::User(User::Status(s)) ==> (a.validity(now, today) is Ok <==> s.creation_date <= now),
        a matches Server::User(User::Profile(p)) ==> a.validity(now, today) == p.validity(today),
        !(a is User) ==> a.validity(now, today) == Ok::<(), RuleError>(()),
{
}

} // verus!
