[package]
name = "ark_holdings"
version = "0.1.0"
edition = "2021"
publish = false

[dependencies]
anyhow = "*"
chrono = "*"
rand = "*"
reqwest = { version = "*", default-features = false, features = ["blocking", "gzip", "rustls-tls"] }
serde_json = "*"
