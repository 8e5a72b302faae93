[package]
name = "sidecar"
version = "0.1.0"
edition = "2021"
publish = false

[dependencies]
xxhash-rust = { version = "0.8", features = ["xxh32"] }
sha1 = "0.10"
regex = "1"
git2 = { version = "0.18", default-features = false }
prost = "0.11"
prost-types = "0.11"
tonic = { version = "0.9", default-features = false }
yaml-rust = "0.4"
serde = { version = "1", features = ["derive"] }
serde_json = "1"
log = "0.4"
env_logger = "0.10"
humantime = "2"
clap = { version = "4", features = ["derive"] }
