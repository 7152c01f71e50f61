[package]
name = "comment_miner"
version = "0.1.0"
edition = "2021"
publish = false

[dependencies]
csv = "1.1"
flate2 = "1.0"
proc-macro2 = { version = "1.0", features = ["span-locations"] }
serde = { version = "1.0", features = ["derive"] }
serde_json = "1.0"
syn = { version = "1.0", features = ["full"] }
tar = "0.4"
