[package]
name = "alas_launcher"
version = "0.1.0"
edition = "2021"
publish = false

[dependencies]
serde = { version = "=1.0.229", features = ["derive"] }
serde_json = "=1.0.154"
serde_yaml = "=0.9.34"
anyhow = "=1.0.104"
tracing = "=0.1.44"
chrono = "=0.4.45"
sysinfo = "=0.33.1"
command-group = "=5.0.1"
tempfile = "=3.27.0"
dirs = "=5.0.1"
openssl-probe = "=0.1.6"
reqwest = { version = "=0.12.28", default-features = false, features = ["blocking", "rustls-tls"] }
rust-i18n = "=3.1.5"
windows-registry = "0.6"
