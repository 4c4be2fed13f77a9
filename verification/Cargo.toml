[package]
name = "kvstore"
version = "0.1.0"
edition = "2021"
publish = false

[dependencies]
tokio = { version = "=1.54.1", default-features = false, features = ["io-util", "macros", "net", "rt-multi-thread", "signal", "sync", "time"] }
