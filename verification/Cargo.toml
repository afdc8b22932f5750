[package]
name = "anyreality"
version = "0.1.0"
edition = "2021"
publish = false

[dependencies]
anytls = { version = "=0.3.17", default-features = false, features = ["client", "server"] }
log = "=0.4.35"
rustls = "=0.23.46"
socks5-impl = "=0.9.9"
tokio = { version = "=1.54.1", features = ["io-util", "macros", "net", "rt", "rt-multi-thread", "sync", "time"] }
