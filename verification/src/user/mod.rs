//! User records: account, profile, preferences, chats and devices.

pub mod chat;
pub mod device;
pub mod preferences;
pub mod profile;
pub mod status;

use vstd::prelude::*;
use crate::validation::{length_rule, min_max_length, RuleError};
use self::chat::Chat;
use self::device::{check_devices, devices_rule, Device};
use self::preferences::Preferences;
use self::profile::Profile;
use self::status::Status;

verus! {

/// A user's account record. Text is held as UTF-8 bytes, dates as Unix
/// seconds (days for the creation date).
pub struct User {
    pub id: [u8; 16],
    pub status: Status,
    pub username: Vec<u8>,
    pub profile: Profile,
    pub email: Vec<u8>,
    pub phone: Vec<u8>,
    pub preferences: Preferences,
    pub creation_date: i64,
    pub chat: Vec<Chat>,
    pub device: Vec<Device>,
}

impl User {
    /// The rules a user record obeys, checked in field order: a username of
    /// 1 to 16 bytes, a valid profile, valid devices.
    pub open spec fn validity(&self) -> Result<(), RuleError> {
        if length_rule(self.username@.len(), 1, 16) is Err {
            length_rule(self.username@.len(), 1, 16)
        } else if self.profile.validity() is Err {
            self.profile.validity()
        } else {
            devices_rule(self.device@)
        }
    }

    /// Checks the record's rules, reporting the first one broken.
    pub fn check_validity(&self) -> (r: Result<(), RuleError>)
        ensures
            r == self.validity(),
    {
        match min_max_length(self.username.as_slice(), 1, 16) {
            Err(e) => return Err(e),
            Ok(()) => {},
        }
        match self.profile.check_validity() {
            Err(e) => return Err(e),
            Ok(()) => {},
        }
        check_devices(&self.device)
    }
}

/// A user record passes exactly when its username has 1 to 16 bytes, its
/// profile passes and every device passes; the username's rule is reported
/// first, then the profile's, then the devices'.
pub proof fn lemma_user_rules(u: User)
    ensures
        u.validity() is Ok <==> 1 <= u.username@.len() && u.username@.len() <= 16 && u.profile.validity() is Ok
            && forall|i: int| 0 <= i < u.device@.len() ==> #[trigger] u.device@[i].validity() is Ok,
        u.username@.len() == 0 ==> u.validity() == Err::<(), RuleError>(RuleError::TooShort),
        u.username@.len() > 16 ==> u.validity() == Err::<(), RuleError>(RuleError::TooLong),
        1 <= u.username@.len() && u.username@.len() <= 16 && u.profile.validity() is Err ==> u.validity() == u.profile.validity(),
{
    crate::user::device::lemma_devices_rule(u.device@);
}

} // verus!
