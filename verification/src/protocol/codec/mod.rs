//! Request and response codecs, and the reasons a request is refused.

pub mod client;
pub mod server;

use vstd::prelude::*;

verus! {

/// Why a login was refused.
#[derive(Debug, Clone, Copy, PartialEq, Eq, Structural)]
pub enum Login {
    BadPassword,
}

/// Why a registration was refused.
#[derive(Debug, Clone, Copy, PartialEq, Eq, Structural)]
pub enum Register {
    UsernameTaken,
    EmailUsed,
    PhoneUsed,
    InvalidData,
}

/// Why a challenge was refused.
#[derive(Debug, Clone, Copy, PartialEq, Eq, Structural)]
pub enum Challenge {
    ClientAuthenticated,
}

/// Why an elevation was refused.
#[derive(Debug, Clone, Copy, PartialEq, Eq, Structural)]
pub enum Elevate {
    ClientAuthenticated,
    InvalidSignature,
}

} // verus!
