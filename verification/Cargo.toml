[package]
name = "symphony"
version = "0.1.0"
edition = "2021"
rust-version = "1.95"
publish = false

[dependencies]
async-trait = "0.1"
axum = "0.8"
chrono = { version = "=0.4.45", features = ["serde"] }
clap = { version = "4", features = ["derive"] }
graphql-parser = "=0.4.1"
# Not used here: liquid uses it, and later versions of it ask for a newer compiler.
kstring = "=2.0.2"
liquid = "=0.26.11"
notify = "8"
reqwest = { version = "0.12", default-features = false, features = ["json", "rustls-tls"] }
serde = { version = "1", features = ["derive"] }
serde_json = "=1.0.154"
serde_yaml = "=0.9.34"
thiserror = "2"
tokio = { version = "1", features = ["full"] }
tokio-util = "0.7"
tracing = "0.1"
tracing-subscriber = { version = "0.3", features = ["env-filter", "json"] }
