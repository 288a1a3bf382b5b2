[package]
name = "blobscan-agent"
version = "0.1.0"
edition = "2021"
publish = false

[dependencies]
anyhow = "1"
aws-sdk-s3 = { version = "1", default-features = false, features = ["rt-tokio"] }
axum = { version = "0.7", default-features = false, features = ["http1", "json", "tokio"] }
brotli = "*"
ethers = { version = "2", default-features = false }
k256 = { version = "0.13", default-features = false, features = ["ecdsa"] }
planetscale-driver = "*"
reqwest = { version = "0.11", default-features = false, features = ["json"] }
serde = { version = "1", features = ["derive"] }
serde_json = "1"
tokio = { version = "1", features = ["rt-multi-thread", "net", "sync", "time"] }
