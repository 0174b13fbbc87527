[package]
name = "r3_ui"
version = "0.1.0"
edition = "2021"
publish = false

[dependencies]
base64 = "=0.22.1"
urlencoding = "=2.1.3"
uuid = { version = "=1.29.0", features = ["v4"] }
serde_json = "=1.0.154"
chrono = "=0.4.45"
totp-lite = "=2.0.1"
rand = "=0.8.8"
argon2 = "=0.5.3"
qrcode = "=0.14.1"
image = { version = "=0.25.10", default-features = false, features = ["png"] }
toml = "=0.8.23"
anyhow = "=1.0.104"
serde = { version = "=1.0.229", features = ["derive"] }
axum = { version = "=0.8.9", features = ["ws"] }
tokio = { version = "=1.54.1", features = ["full"] }
sqlx = { version = "=0.8.6", default-features = false, features = ["runtime-tokio", "sqlite", "derive"] }
tower-sessions = "=0.14.0"
tower-http = { version = "=0.6.11", features = ["trace", "cors"] }
tracing = "=0.1.44"
tracing-subscriber = { version = "=0.3.23", features = ["env-filter"] }
dotenvy = "=0.15.7"
mime_guess = "=2.0.5"
time = "=0.3.55"
tokio-cron-scheduler = "=0.13.0"
sysinfo = "=0.33.1"
tera = { version = "=1.20.1", default-features = false }
reqwest = { version = "=0.12.28", default-features = false, features = ["json", "rustls-tls"] }
zip = { version = "=2.6.1", default-features = false, features = ["deflate"] }
futures = "=0.3.34"
