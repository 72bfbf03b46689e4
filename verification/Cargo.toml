[package]
name = "quonitor"
version = "0.1.0"
edition = "2021"
publish = false

[dependencies]
aes-gcm = "=0.11.1"
chrono = "=0.4.45"
getrandom = "*"
tokio = { version = "=1.53.2", features = ["rt-multi-thread", "macros", "sync", "time"] }
sqlx = { version = "=0.9.0", default-features = false, features = ["runtime-tokio", "sqlite"] }
reqwest = { version = "=0.12.28", default-features = false, features = ["json", "rustls-tls"] }
serde = { version = "*", features = ["derive"] }
serde_json = "*"
uuid = { version = "=1.27.0", features = ["v4"] }
dirs = "*"
anyhow = "*"
thiserror = "*"
base64 = "=0.22.1"
keyring = "=4.2.0"
notify-rust = { version = "=4.18.2", default-features = false, features = ["z"] }
oauth2 = "=5.0.0"
tracing = "*"
tracing-subscriber = { version = "*", features = ["env-filter"] }
