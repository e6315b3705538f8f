[package]
name = "bluefin_bot"
version = "0.1.0"
edition = "2021"
publish = false

[dependencies]
rust_decimal = "=1.43.0"
chrono = "=0.4.45"
uuid = { version = "=1.29.0", features = ["v4"] }
hex = "=0.4.3"
rand = "=0.8.8"
serde = { version = "=1.0.229", features = ["derive"] }
serde_json = "=1.0.154"
thiserror = "=1.0.69"
anyhow = "=1.0.104"
tokio = { version = "=1.54.1", features = ["full"] }
tracing = "=0.1.44"
tracing-subscriber = "=0.3.23"
config = { version = "=0.14.1", default-features = false, features = ["toml"] }
dotenvy = "=0.15.7"
reqwest = { version = "=0.12.28", default-features = false, features = ["json", "rustls-tls"] }
sqlx = { version = "=0.8.6", default-features = false, features = ["runtime-tokio", "sqlite"] }
tokio-tungstenite = "=0.24.0"
futures-util = "=0.3.34"
bluefin_api = "=1.13.0"
bluefin-pro = "=1.13.0"
sui-sdk-types = "=0.0.4"
