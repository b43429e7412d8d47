//! The server side: its account records, request routing, the per-client
//! connection state machine and the client pool.

pub mod router;
pub mod user;
pub mod client;
pub mod handler;
pub mod keypair;
