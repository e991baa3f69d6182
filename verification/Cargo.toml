[package]
name = "libp2p-broadcast"
version = "0.1.0"
edition = "2021"
publish = false

[dependencies]
fnv = "=1.0.7"
libp2p = { version = "0.52", default-features = false }
