[package]
name = "fragback"
version = "0.1.0"
edition = "2021"
publish = false

[dependencies]
anyhow = "1"
base64 = "0.22"
clap = { version = "4", features = ["derive"] }
nix = { version = "*", features = ["fs"] }
serde = { version = "1", features = ["derive"] }
sha3 = "0.10"
toml = "0.8"
uuid = { version = "1", features = ["v4"] }
