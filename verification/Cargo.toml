[package]
name = "centralenv"
version = "0.1.0"
edition = "2021"
publish = false

[dependencies]
aes-gcm = "=0.10.3"
base64 = "=0.22.1"
bcrypt = "=0.15.1"
hex = "=0.4.3"
sha2 = "=0.10.9"
serde = { version = "=1.0.229", features = ["derive"] }
serde_json = "=1.0.154"
rand = "=0.8.8"
uuid = { version = "=1.29.1", features = ["v4"] }
anyhow = "=1.0.104"
axum = "=0.7.9"
axum-extra = { version = "=0.9.6", features = ["typed-header"] }
sqlx = { version = "=0.8.6", default-features = false, features = ["runtime-tokio", "sqlite", "migrate"] }
tokio = { version = "=1.54.1", features = ["full"] }
tower-http = { version = "=0.5.2", features = ["cors", "trace"] }
tracing = "=0.1.44"
tracing-subscriber = { version = "=0.3.23", features = ["env-filter"] }
dotenvy = "=0.15.7"
clap = { version = "=4.6.7", features = ["derive"] }
dirs = "=5.0.1"
toml = "=0.8.23"
reqwest = { version = "=0.12.28", default-features = false, features = ["json", "rustls-tls"] }
