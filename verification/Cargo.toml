[package]
name = "conduit"
version = "0.1.0"
edition = "2021"
publish = false

[dependencies]
jwt = "0.16"
hmac = "0.12"
sha2 = "0.10"
rust-crypto = "=0.2.36"
slug = "=0.1.6"
serde = { version = "1", features = ["derive"] }
serde_json = "1"
