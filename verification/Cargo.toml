[package]
name = "guild-mirror"
version = "0.1.0"
edition = "2021"
publish = false

[dependencies]
anyhow = "1"
async-fs = "1"
deadpool = "0.9"
deadpool-diesel = { version = "0.4", features = ["sqlite"] }
diesel = { version = "2.1", features = ["sqlite"] }
diesel_migrations = "2.1"
futures-lite = "1"
http = "0.2"
regex = "1"
reqwest = { version = "0.11", default-features = false, features = ["rustls-tls"] }
serde = { version = "1", features = ["derive"] }
serde_json = "1"
thiserror = "1"
tokio = { version = "1", features = ["full"] }
toml = "0.7"
tracing = "0.1"
tracing-subscriber = "0.3"
twilight-gateway = "0.15"
twilight-http = "0.15"
twilight-model = "0.15"
twilight-validate = "0.15"
