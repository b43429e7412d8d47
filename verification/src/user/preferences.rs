//! A user's search preferences.

use vstd::prelude::*;
use super::profile::Gender;

verus! {

/// A preference that the user may leave undisclosed.
#[derive(Debug, Clone, Copy, PartialEq, Eq, Structural)]
pub enum Disclosed<T> {
    /// The preference, disclosed.
    Shown(T),
    /// The preference is not disclosed.
    Withheld,
}

/// The search radius, in metres.
#[derive(Debug, Clone, Copy, PartialEq, Eq, Structural)]
pub enum LocationRange {
    _100,
    _250,
    _500,
    _1000,
    _2000,
}

impl LocationRange {
    /// The radius in metres.
    pub fn metres(&self) -> (r: u32)
        ensures
            r == match self {
                LocationRange::_100 => 100u32,
                LocationRange::_250 => 250u32,
                LocationRange::_500 => 500u32,
                LocationRange::_1000 => 1000u32,
                LocationRange::_2000 => 2000u32,
            },
    {
        match self {
            LocationRange::_100 => 100,
            LocationRange::_250 => 250,
            LocationRange::_500 => 500,
            LocationRange::_1000 => 1000,
            LocationRange::_2000 => 2000,
        }
    }
}

/// What a user is looking for: gender, age range (`start..end`) and radius.
pub struct Preferences {
    pub gender: Disclosed<Gender>,
    pub age: Disclosed<(u8, u8)>,
    pub range: LocationRange,
}

} // verus!
