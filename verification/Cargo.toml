[package]
name = "system"
version = "0.1.0"
edition = "2021"
publish = false

[dependencies]
rand = "0.8"
crossbeam-channel = "0.5"
tokio = { version = "1", default-features = false, features = ["rt-multi-thread", "sync", "time", "macros"] }
