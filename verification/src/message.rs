//! Chat message contents.

use vstd::prelude::*;
use crate::authenticated::Authenticated;
use crate::crypt::Crypt;
use crate::exchange::PKEcdh;
use crate::session::initial::Initial;

verus! {

/// The height of a message in a chat.
pub type MessageHeight = u128;

/// A message's encrypted contents, authenticated.
pub type CipheredMessageData = Authenticated<Crypt<Vec<u8>>>;

/// A message: the initial exchange when it opens a session, its height, the
/// sender's ratchet key, the length of the previous chain, the encrypted
/// contents and when it was sent (Unix seconds).
pub struct Message {
    pub initial: Option<Initial>,
    pub height: MessageHeight,
    pub ratchet_key: PKEcdh,
    pub previous_chain_length: MessageHeight,
    pub payload: CipheredMessageData,
    pub timestamp: i64,
}

/// Kinds of media in a message bubble.
#[derive(Debug, Clone, Copy, PartialEq, Eq, Structural)]
pub enum Media {
    Text,
    Photo,
    Audio,
    Video,
    Sticker,
    Location,
}

/// Contents of a message.
pub enum Content {
    Bubble {
        responding: Option<MessageHeight>,
        one_time: bool,
        payload: Vec<u8>,
        kind: Media,
    },
    Received(MessageHeight),
    Seen(MessageHeight),
    Screenshot(Vec<MessageHeight>),
    Reaction(Vec<u8>, MessageHeight),
}

} // verus!
