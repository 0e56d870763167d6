[package]
name = "discordinator"
version = "0.1.0"
edition = "2021"
publish = false

[dependencies]
base64 = "=0.22.1"
flate2 = "=1.1.10"
sha2 = "=0.10.9"
serde = { version = "=1.0.229", features = ["derive"] }
serde_json = "=1.0.154"
toml = "=0.8.23"
tokio = { version = "=1.54.1", features = ["full"] }
tokio-tungstenite = "=0.30.0"
futures-util = "=0.3.34"
crossterm = "=0.28.1"
ratatui = "=0.29.0"
rusqlite = { version = "=0.32.1", features = ["bundled"] }
reqwest = { version = "=0.12.28", default-features = false, features = ["json", "rustls-tls"] }
dirs = "=7.0.0"
rand = "=0.8.8"
rsa = "=0.9.10"
qrcode = "=0.14.1"
secrecy = "=0.10.3"
color-eyre = "=0.6.5"
tracing = "=0.1.44"
tracing-subscriber = { version = "=0.3.23", features = ["env-filter"] }
tracing-appender = "=0.2.5"
iana-time-zone = "=0.1.65"
keyring = { version = "=3.6.3", features = ["apple-native", "windows-native", "linux-native"] }
