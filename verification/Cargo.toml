[package]
name = "on-chain-version-watcher"
version = "0.1.0"
edition = "2021"
publish = false

[dependencies]
anyhow = "=1.0.104"
blake2-rfc = "=0.2.18"
serde = { version = "=1.0.229", features = ["derive"] }
subrpcer = { version = "=0.11.0", features = ["ureq-client"] }
ureq = { version = "=2.12.1", features = ["json"] }

[dev-dependencies]
array-bytes = "=6.2.3"
