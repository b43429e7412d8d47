//! Account status.

use vstd::prelude::*;
use crate::validation::{opt_length_rule, opt_min_max_length, RuleError};

verus! {

/// Whether an account is active or banned (since when, and why).
pub enum Status {
    Active,
    Banned(i64, Option<Vec<u8>>),
}

impl Status {
    /// A ban's reason holds at most 128 bytes.
    pub open spec fn validity(&self) -> Result<(), RuleError> {
        match self {
            Status::Active => Ok(()),
            Status::Banned(_, reason) => opt_length_rule(match reason { Some(v) => Some(v@), None => None }, 0, 128),
        }
    }

    /// Checks the status's rule.
    pub fn check_validity(&self) -> (r: Result<(), RuleError>)
        ensures
            r == self.validity(),
    {
        match self {
            Status::Active => Ok(()),
            Status::Banned(_, reason) => opt_min_max_length(reason, 0, 128),
        }
    }
}

/// An active account always passes; a ban passes exactly when its reason, if
/// any, has at most 128 bytes (otherwise too long).
pub proof fn lemma_status_rules(s: Status)
    ensures
        s is Active ==> s.validity() == Ok::<(), RuleError>(()),
        s matches Status::Banned(_, None) ==> s.validity() == Ok::<(), RuleError>(()),
        s matches Status::Banned(_, Some(r)) ==> (s.validity() is Ok <==> r@.len() <= 128),
        s matches Status::Banned(_, Some(r)) ==> (r@.len() > 128 ==> s.validity() == Err::<(), RuleError>(RuleError::TooLong)),
{
}

} // verus!
