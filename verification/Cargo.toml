[package]
name = "revi_core"
version = "0.1.0"
edition = "2021"
publish = false

[dependencies]
similar = "=3.2.0"
sha2 = "=0.11.0"
lru = { version = "=0.18.5", default-features = false }
