[package]
name = "identity_core"
version = "0.1.0"
edition = "2021"
publish = false

[dependencies]
bs58 = "=0.4.0"
multibase = "=0.9.3"
sha2 = "=0.9.9"
subtle = "=2.6.1"
serde = { version = "=1.0.229", features = ["derive"] }
serde_json = "=1.0.154"
thiserror = "=1.0.69"

[dev-dependencies]
ed25519-dalek = "=2.2.0"
