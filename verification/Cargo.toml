[package]
name = "margins"
version = "0.1.0"
edition = "2021"
publish = false

[dependencies]
sha2 = "0.10"
blake3 = { version = "1", default-features = false, features = ["std", "pure"] }
serde = { version = "1", features = ["derive"] }
serde_json = "1"
base64 = "0.22"
