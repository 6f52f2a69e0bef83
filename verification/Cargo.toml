[package]
name = "async-combinators"
version = "0.1.0"
edition = "2021"
publish = false

[dependencies]
futures-core-preview = "=0.3.0-alpha.18"
futures-io-preview = "=0.3.0-alpha.18"
futures-channel-preview = "=0.3.0-alpha.18"
pin-utils = "0.1"
