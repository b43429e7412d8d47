//! Validation rules on the library's records: length bounds on text and
//! upper bounds on dates.

use vstd::prelude::*;

verus! {

/// Why a value breaks a rule.
#[derive(Debug, Clone, Copy, PartialEq, Eq, Structural)]
pub enum RuleError {
    /// "Value is too short".
    TooShort,
    /// "Value is too long".
    TooLong,
    /// "Value is too high".
    TooHigh,
}

/// The outcome of the length rule on a text of `len` bytes.
pub open spec fn length_rule(len: nat, min: nat, max: nat) -> Result<(), RuleError> {
    if min > len {
        Err(RuleError::TooShort)
    } else if max < len {
        Err(RuleError::TooLong)
    } else {
        Ok(())
    }
}

/// Checks that a text's length in bytes lies within `min..=max`.
pub fn min_max_length(value: &[u8], min: usize, max: usize) -> (r: Result<(), RuleError>)
    ensures
        r == length_rule(value@.len(), min as nat, max as nat),
{
    if min > value.len() {
        Err(RuleError::TooShort)
    } else if max < value.len() {
        Err(RuleError::TooLong)
    } else {
        Ok(())
    }
}

/// The length rule applied to an optional text: absent text passes.
pub open spec fn opt_length_rule(value: Option<Seq<u8>>, min: nat, max: nat) -> Result<(), RuleError> {
    match value {
        Some(v) => length_rule(v.len(), min, max),
        None => Ok(()),
    }
}

/// Checks the length rule on an optional text.
pub fn opt_min_max_length(value: &Option<Vec<u8>>, min: usize, max: usize) -> (r: Result<(), RuleError>)
    ensures
        r == opt_length_rule(match value { Some(v) => Some(v@), None => None }, min as nat, max as nat),
{
    match value {
        Some(v) => min_max_length(v.as_slice(), min, max),
        None => Ok(()),
    }
}

/// The upper-bound rule: a value above `max` is too high.
pub open spec fn max_rule(value: int, max: int) -> Result<(), RuleError> {
    if value > max {
        Err(RuleError::TooHigh)
    } else {
        Ok(())
    }
}

/// Checks that a timestamp is not after `max` (for dates: not in the future).
pub fn max_range(value: i64, max: i64) -> (r: Result<(), RuleError>)
    ensures
        r == max_rule(value as int, max as int),
{
    if value > max {
        Err(RuleError::TooHigh)
    } else {
        Ok(())
    }
}

} // verus!
