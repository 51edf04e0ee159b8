[package]
name = "aicortex_store"
version = "0.1.0"
edition = "2021"
publish = false

[dependencies]
ring = "0.17"
blake3 = { version = "1", features = ["pure"] }
base64 = "0.22"
uuid = { version = "1", features = ["v4", "v7"] }
serde = { version = "1", features = ["derive"] }
serde_json = "1"
