[package]
name = "edge_runtime"
version = "0.1.0"
edition = "2021"
publish = false

[dependencies]
ring = "0.17"
base64 = "0.21"
faster-hex = "0.9"
deno_semver = "0.6"
deno_npm = "0.25"
tokio = { version = "1", features = ["rt", "sync", "time", "macros"] }
tar = "0.4"
flate2 = "1"
serde_json = "1"
log = "0.4"
anyhow = "1"
uuid = { version = "1", features = ["v4"] }
clap = "4"
