[package]
name = "shaken"
version = "0.1.0"
edition = "2021"
publish = false

[dependencies]
rand = "*"
serde = { version = "*", features = ["derive"] }
toml = "*"

[dev-dependencies]
serde_cbor = "*"
