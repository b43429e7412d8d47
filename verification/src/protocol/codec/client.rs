//! What a client asks of the server, and the rules a request obeys.

use vstd::prelude::*;
use crate::exchange::PKEcdh;
use crate::identity::{Signature, Signed};
use crate::keychain::PKKeychain;
use crate::schema::{Password, Preference, Profile};
use crate::validation::{length_rule, min_max_length, opt_length_rule, opt_min_max_length, RuleError};

verus! {

/// A client's request.
pub enum Client {
    Auth(Auth),
    Session(Session),
    User(User),
}

/// Authentication requests.
pub enum Auth {
    Login {
        pk_keychain: PKKeychain,
        device_id: [u8; 32],
        password: Password,
    },
    Register {
        pk_keychain: PKKeychain,
        device_id: [u8; 32],
        user: User,
        profile: Profile,
        password: Password,
    },
    Challenge,
    Elevate {
        device_id: [u8; 32],
        challenge: Signature,
    },
}

/// Session requests: publish one-time keys, or invalidate the session.
pub enum Session {
    OneTime(Option<Vec<Signed<PKEcdh>>>),
    Invalidate,
}

/// Account requests: change the username, profile, preferences or password.
pub enum User {
    Username(Option<Vec<u8>>),
    Profile(Option<Profile>),
    Preferences(Option<Preference>),
    Password(Vec<u8>),
}

/// The optional text's bytes.
pub open spec fn opt_view(v: Option<Vec<u8>>) -> Option<Seq<u8>> {
    match v {
        Some(b) => Some(b@),
        None => None,
    }
}

impl User {
    /// An account request's rules: a given username of 1 to 16 bytes, a given
    /// profile that passes its rules on `today`, a password of 32 to 256 bytes.
    pub open spec fn validity(&self, today: i64) -> Result<(), RuleError> {
        match self {
            User::Username(name) => opt_length_rule(opt_view(*name), 1, 16),
            User::Profile(Some(p)) => p.validity(today),
            User::Profile(None) => Ok(()),
            User::Preferences(_) => Ok(()),
            User::Password(p) => length_rule(p@.len(), 32, 256),
        }
    }

    /// Checks the request's rules.
    pub fn check_validity(&self, today: i64) -> (r: Result<(), RuleError>)
        ensures
            r == self.validity(today),
    {
        match self {
            User::Username(name) => opt_min_max_length(name, 1, 16),
            User::Profile(Some(p)) => p.check_validity(today),
            User::Profile(None) => Ok(()),
            User::Preferences(_) => Ok(()),
            User::Password(p) => min_max_length(p.as_slice(), 32, 256),
        }
    }
}

impl Auth {
    /// An authentication request's rules, in field order: the password's
    /// (login); the user's, the profile's and the password's (registration).
    pub open spec fn validity(&self, today: i64) -> Result<(), RuleError> {
        match self {
            Auth::Login { password, .. } => password.validity(),
            Auth::Register { user, profile, password, .. } => if user.validity(today) is Err {
                user.validity(today)
            } else if profile.validity(today) is Err {
                profile.validity(today)
            } else {
                password.validity()
            },
            Auth::Challenge => Ok(()),
            Auth::Elevate { .. } => Ok(()),
        }
    }

    /// Checks the request's rules.
    pub fn check_validity(&self, today: i64) -> (r: Result<(), RuleError>)
        ensures
            r == self.validity(today),
    {
        match self {
            Auth::Login { password, .. } => password.check_validity(),
            Auth::Register { user, profile, password, .. } => {
                match user.check_validity(today) {
                    Err(e) => return Err(e),
                    Ok(()) => {},
                }
                match profile.check_validity(today) {
                    Err(e) => return Err(e),
                    Ok(()) => {},
                }
                password.check_validity()
            },
            Auth::Challenge => Ok(()),
            Auth::Elevate { .. } => Ok(()),
        }
    }
}

impl Client {
    /// A request's rules: those of an authentication or account request;
    /// session requests have none.
    pub open spec fn validity(&self, today: i64) -> Result<(), RuleError> {
        match self {
            Client::Auth(a) => a.validity(today),
            Client::Session(_) => Ok(()),
            Client::User(u) => u.validity(today),
        }
    }

    /// Checks the request's rules, with `today` as the current date (days
    /// since the epoch).
    pub fn check_validity(&self, today: i64) -> (r: Result<(), RuleError>)
        ensures
            r == self.validity(today),
    {
        match self {
            Client::Auth(a) => a.check_validity(today),
            Client::Session(_) => Ok(()),
            Client::User(u) => u.check_validity(today),
        }
    }
}

/// An account request's rules: a username passes when absent or of 1 to 16
/// bytes (empty: too short, longer: too long); a new password passes with 32
/// to 256 bytes (shorter: too short, longer: too long); a profile passes by
/// its own rules, or when absent; preferences always pass.
pub proof fn lemma_user_request_rules(u: User, today: i64)
    ensures
        u matches User::Username(None) ==> u.validity(today) == Ok::<(), RuleError>(()),
        u matches User::Username(Some(n)) ==> (u.validity(today) is Ok <==> 1 <= n@.len() && n@.len() <= 16),
        u matches User::Username(Some(n)) ==> (n@.len() == 0 ==> u.validity(today) == Err::<(), RuleError>(RuleError::TooShort)),
        u matches User::Username(Some(n)) ==> (n@.len() > 16 ==> u.validity(today) == Err::<(), RuleError>(RuleError::TooLong)),
        u matches User::Password(p) ==> (u.validity(today) is Ok <==> 32 <= p@.len() && p@.len() <= 256),
        u matches User::Password(p) ==> (p@.len() < 32 ==> u.validity(today) == Err::<(), RuleError>(RuleError::TooShort)),
        u matches User::Password(p) ==> (p@.len() > 256 ==> u.validity(today) == Err::<(), RuleError>(RuleError::TooLong)),
        u matches User::Profile(Some(p)) ==> u.validity(today) == p.validity(today),
        u matches User::Profile(None) ==> u.validity(today) == Ok::<(), RuleError>(()),
        u is Preferences ==> u.validity(today) == Ok::<(), RuleError>(()),
{
}

/// An authentication request's rules: a login passes exactly when its
/// password has 32 to 256 bytes; a registration when its account request, its
/// profile and its password (32 to 256 bytes) all pass, the first failure
/// naming the error; a challenge and an elevation always pass. A request
/// passes by the rules of its kind; session requests always pass.
pub proof fn lemma_request_rules(c: Client, today: i64)
    ensures
        c matches Client::Auth(Auth::Login { password, .. }) ==> (c.validity(today) is Ok
            <==> 32 <= password.0@.len() && password.0@.len() <= 256),
        c matches Client::Auth(Auth::Register { user, profile, password, .. }) ==> (c.validity(today) is Ok
            <==> user.validity(today) is Ok && profile.validity(today) is Ok
                && 32 <= password.0@.len() && password.0@.len() <= 256),
        c matches Client::Auth(Auth::Register { user, profile, password, .. }) ==> (user.validity(today) is Err
            ==> c.validity(today) == user.validity(today)),
        c matches Client::Auth(Auth::Challenge) ==> c.validity(today) == Ok::<(), RuleError>(()),
        c matches Client::Auth(Auth::Elevate { .. }) ==> c.validity(today) == Ok::<(), RuleError>(()),
        c is Session ==> c.validity(today) == Ok::<(), RuleError>(()),
        c matches Client::User(u) ==> c.validity(today) == u.validity(today),
{
}

} // verus!
