[package]
name = "native_host"
version = "0.1.0"
edition = "2021"
publish = false

[dependencies]
casper-types = "1"
casper-contract = { version = "1.4.4", default-features = false }
rand = "0.8"
