[package]
name = "llm_toolkit"
version = "0.1.0"
edition = "2021"
publish = false

[dependencies]
sha2 = "0.10"
hex = "0.4"
serde = { version = "1", features = ["derive"] }
serde_json = "1"
toml = "0.8"
anyhow = "1"
fs2 = "0.4"
sysinfo = "0.33"
reqwest = { version = "0.12", default-features = false, features = ["rustls-tls"] }
tokio = { version = "1", features = ["fs", "io-util", "sync", "rt", "macros"] }
zip = { version = "2", default-features = false, features = ["deflate"] }
