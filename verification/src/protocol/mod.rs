//! The client-server protocol: signals, subsignals, their heights and the
//! encryption of subsignals under the handshake's shared secret.

pub mod codec;
pub mod connection;
pub mod network_buf;
pub mod signal;
pub mod wire;
