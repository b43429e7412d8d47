//! Nearssage: the byte framing, cryptographic envelopes, protocol signals and
//! connection state machines of a proximity messaging service, with their
//! contracts proved by Verus.

pub mod authenticated;
pub mod checksum;
pub mod client;
pub mod compress;
pub mod crypt;
pub mod csidh;
pub mod data;
pub mod encoding;
pub mod error;
pub mod exchange;
pub mod hash;
pub mod identity;
pub mod keychain;
pub mod message;
pub mod payload;
pub mod protocol;
pub mod schema;
pub mod server;
pub mod session;
pub mod storage;
pub mod user;
pub mod validation;

