[package]
name = "lal"
version = "0.1.0"
edition = "2021"
publish = false

[dependencies]
base64 = "0.21"
sha1 = "0.6"
semver = "1"
chrono = "0.4"
filetime = "0.2"
walkdir = "2"
serde = { version = "1", features = ["derive"] }
serde_json = "1"
flate2 = "1"
tar = "0.4"
log = "0.4"
reqwest = { version = "0.11", default-features = false, features = ["blocking"] }
