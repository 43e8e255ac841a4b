[package]
name = "ua_fingerprint"
version = "0.1.0"
edition = "2021"
publish = false

[dependencies]
blake3 = "*"
user-agent-parser = "*"
actix-web = "*"
once_cell = "*"
serde = { version = "*", features = ["derive"] }
serde_json = "*"
