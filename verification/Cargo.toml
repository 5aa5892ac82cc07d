[package]
name = "qdrust"
version = "0.1.0"
edition = "2021"
publish = false

[dependencies]
sha2 = "=0.10.9"
rand = "=0.9.5"
base64 = "=0.22.1"
argon2 = "=0.5.3"
chrono = "=0.4.45"
chrono-tz = "=0.10.4"
cron = "=0.17.0"
subtle = "=2.6.1"
lettre = { version = "=0.11.23", default-features = false, features = ["builder", "smtp-transport", "rustls-tls"] }
serde = { version = "=1.0.229", features = ["derive"] }
serde_json = "=1.0.154"
reqwest = { version = "=0.12.28", default-features = false, features = ["json", "rustls-tls"] }
tokio = { version = "=1.54.1", features = ["rt", "macros", "sync", "time"] }
anyhow = "=1.0.104"
dotenvy = "=0.15.7"
redis = { version = "0.27", default-features = false, features = ["tokio-comp"] }
