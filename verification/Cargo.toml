[package]
name = "transcribe-rs"
version = "0.1.0"
edition = "2021"
publish = false

[dependencies]
dirs = "=5.0.1"
regex = "=1.13.1"
similar = "=2.7.0"
rapidfuzz = "=0.5.0"
chrono = "=0.4.45"
serde = { version = "=1.0.229", features = ["derive"] }
serde_json = "=1.0.154"
toml = "=0.8.23"
hound = "=3.5.1"
notify-rust = "=4.18.2"
notify = "6"
ctrlc = "3"
reqwest = { version = "0.12", default-features = false, features = ["blocking", "json", "multipart", "rustls-tls"] }
