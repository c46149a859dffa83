//! HTTP/1.1 message framing.

pub mod buffer;
pub mod client;
pub mod headers;
pub mod number;
pub mod request;
pub mod response;
pub mod roundtrip;
pub mod text;
pub mod url;
pub mod wire;
