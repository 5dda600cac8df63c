[package]
name = "meow-ios-ffi"
version = "0.1.0"
edition = "2021"
publish = false

[dependencies]
anyhow = "1"
dashmap = "6"
futures = "0.3"
hickory-proto = "0.25"
log = "0.4"
meow-proxy = { version = "0.15", default-features = false }
meow-api = { version = "0.15", default-features = false }
meow-common = { version = "0.15", default-features = false }
meow-config = { version = "0.15", default-features = false }
meow-dns = { version = "0.15", default-features = false }
meow-tunnel = { version = "0.15", default-features = false }
netstack-smoltcp = "0.2"
oslog = "0.2"
parking_lot = "0.12"
rustls = { version = "0.23", default-features = false, features = ["ring", "std"] }
serde_yaml = "0.9"
tokio = { version = "1", features = ["rt-multi-thread", "net", "time", "sync", "macros", "io-util"] }
tracing = "0.1"
tracing-subscriber = "0.3"
