[package]
name = "volt"
version = "0.1.0"
edition = "2021"
publish = false

[dependencies]
node-semver = "=2.2.0"
rust-lzma = "=0.6.0"
serde = { version = "*", features = ["derive"] }
reqwest = { version = "*", default-features = false, features = ["blocking", "json"] }
dirs = "*"
tempfile = "*"
tar = "*"
clap = { version = "*", features = ["derive"] }
anyhow = "*"
