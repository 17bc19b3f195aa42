[package]
name = "zellij_relay"
version = "0.1.0"
edition = "2021"
publish = false

[dependencies]
aes-gcm = "=0.10.3"
anyhow = "=1.0.104"
axum = { version = "=0.8.9", features = ["ws"] }
axum-extra = { version = "=0.10.3", features = ["cookie"] }
axum-server = "0.7"
dialoguer = "=0.10.4"
futures-util = "=0.3.34"
hkdf = "=0.12.4"
include_dir = "0.7"
interprocess = { version = "=2.4.7", features = ["tokio"] }
isahc = { version = "=1.8.3", features = ["json"] }
log = "=0.4.35"
prost = "=0.11.9"
rand = "=0.8.8"
serde = { version = "=1.0.229", features = ["derive"] }
serde_json = "=1.0.154"
sha2 = "=0.10.9"
time = "=0.3.55"
tokio = { version = "=1.54.1", features = ["full"] }
tokio-tungstenite = "=0.20.1"
tracing = "=0.1.44"
tracing-subscriber = { version = "=0.3.23", features = ["env-filter"] }
url = "=2.5.8"
uuid = { version = "=1.29.0", features = ["v4"] }
