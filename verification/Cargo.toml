[package]
name = "verdun"
version = "0.2.2"
edition = "2021"
publish = false

[dependencies]
bytes = "1"
log = "0.4"
regex = "1"
rustls = "0.23"
webpki-roots = "0.26"
