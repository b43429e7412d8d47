//! A user's chats.

use vstd::prelude::*;

verus! {

/// A chat with a peer: when it was first seen (Unix seconds) and whether it is open.
pub struct Chat {
    pub first_seen: i64,
    pub peer: [u8; 16],
    pub opened: bool,
}

} // verus!
