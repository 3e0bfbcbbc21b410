[package]
name = "depac"
version = "0.1.0"
edition = "2021"
publish = false

[dependencies]
alpm = "=5.0.2"
anyhow = "1"
git2 = { version = "=0.21.0", features = ["https", "vendored-openssl"] }
owo-colors = "=4.4.0"
reqwest = { version = "=0.12.28", default-features = false, features = ["blocking", "json", "rustls-tls"] }
rustix = { version = "=1.1.6", features = ["process"] }
schemars = "=1.2.3"
serde = { version = "1", features = ["derive"] }
serde_json = "1"
