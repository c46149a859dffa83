//! A minimal HTTPS client core: an HTTP/1.1 request encoder, a response
//! decoder with fixed-length and chunked body framing, a URL splitter, and
//! the decisions of a TLS transport pump.

pub mod https;
pub mod tls;
