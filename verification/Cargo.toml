[package]
name = "http_switchboard"
version = "0.1.0"
edition = "2021"
publish = false

[dependencies]
toml = "0.8"
serde_json = "1"
minijinja = { version = "2", features = ["json"] }
tokio = { version = "1", features = ["full"] }
axum = "0.7"
reqwest = { version = "0.12", default-features = false, features = ["rustls-tls"] }

[dev-dependencies]
