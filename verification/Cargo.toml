[package]
name = "resly"
version = "0.1.0"
edition = "2021"
publish = false

[dependencies]
sha2 = "0.10"
urlencoding = "2"
serde = { version = "1", features = ["derive"] }
serde_json = "1"
toml = "0.8"
clap = { version = "4", features = ["derive", "env"] }
reqwest = { version = "0.12", default-features = false, features = ["blocking", "json", "rustls-tls"] }
