[package]
name = "rustsync"
version = "0.1.0"
edition = "2021"
publish = false

[dependencies]
anyhow = "=1.0.104"
async-trait = "=0.1.92"
axum = { version = "=0.6.20", features = ["multipart"] }
bytes = "=1.12.1"
chrono = "=0.4.45"
cron = "=0.12.1"
glob = "=0.3.4"
jsonwebtoken = "=8.3.0"
lettre = { version = "=0.11.23", default-features = false, features = ["builder", "smtp-transport", "tokio1", "tokio1-rustls-tls"] }
md-5 = "=0.10.6"
r2d2 = "=0.8.10"
r2d2_sqlite = "=0.22.0"
rand = "=0.8.8"
reqwest = { version = "=0.11.27", default-features = false, features = ["json", "rustls-tls"] }
rusqlite = { version = "=0.29.0", features = ["bundled"] }
serde = { version = "=1.0.229", features = ["derive"] }
serde_json = { version = "=1.0.154", features = ["preserve_order"] }
serde_yaml = "=0.9.34"
tokio = { version = "=1.54.1", features = ["full"] }
tower-http = { version = "=0.4.4", features = ["cors"] }
tracing = "=0.1.44"
tracing-subscriber = "=0.3.23"
