[package]
name = "zk_harness"
version = "0.1.0"
edition = "2021"
publish = false

[dependencies]
hex = "=0.4.3"
bincode = "=1.3.3"
serde = { version = "=1.0.229", features = ["derive"] }
serde_json = "=1.0.151"
sha2 = "=0.10.9"
ed25519-compact = "=2.6.0"
risc0-zkvm = { version = "=2.3.2", default-features = false, features = ["client"] }
clap = { version = "=4.6.7", features = ["derive"] }
