[package]
name = "stream_injector"
version = "0.1.0"
edition = "2021"
publish = false

[dependencies]
redis = { version = "*", default-features = false }
crossbeam-channel = "0.5"
crossbeam-utils = "0.8"
failure = { version = "0.1", default-features = false, features = ["std"] }
