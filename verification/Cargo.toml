[package]
name = "vps_cli"
version = "0.1.0"
edition = "2021"
publish = false

[dependencies]
sha2 = "0.10"
hex = "0.4"
clap = "4"
dialoguer = "0.11"
atty = "0.2"
nix = { version = "0.29", features = ["user"] }
reqwest = { version = "0.12", default-features = false, features = ["blocking", "rustls-tls"] }
flate2 = "1"
tar = "0.4"
serde = { version = "1", features = ["derive"] }
serde_json = "1"
