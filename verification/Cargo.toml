[package]
name = "wfgen"
version = "0.1.0"
edition = "2021"
publish = false

[dependencies]
serde_json = "1"
chrono = "0.4"
clap = { version = "4", features = ["derive"] }
toml = "0.8"
ureq = "3"
serde = { version = "1", features = ["derive"] }
flate2 = "1"
tar = "0.4"
walkdir = "2"
rand = "0.9"
