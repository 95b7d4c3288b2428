[package]
name = "talkboy"
version = "0.1.0"
edition = "2021"
publish = false

[dependencies]
base64 = "=0.10.1"
bytes = "=0.4.12"
chrono = "=0.4.45"
clap = "=2.34.0"
cookie = "=0.12.0"
failure = "=0.1.8"
futures = "=0.1.31"
har = "=0.3.0"
hyper = "=0.12.36"
hyper-rustls = "=0.17.1"
lazy_static = "=1.5.1"
regex = "=1.13.1"
serde = "=1.0.229"
serde_derive = "=1.0.229"
serde_json = "=1.0.154"
sha2 = "=0.8.2"
slog = "=2.8.2"
slog-async = "=2.8.0"
slog-term = "=2.9.2"
tokio = "=0.1.22"
toml = "=0.5.11"
