//! The decisions of the TLS transport: when to move encrypted records, when
//! to wait for the peer, and when a call is over.

pub mod engine;
pub mod pump;
pub mod transport;
