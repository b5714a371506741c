[package]
name = "mm"
version = "0.1.0"
edition = "2021"
publish = false

[dependencies]
trading-types = "*"
anyhow = "1"
async-trait = "*"
bytes = "1"
chrono = "*"
clap = { version = "4", features = ["derive", "env"] }
dotenvy = "*"
env_logger = "*"
futures-util = "*"
itertools = "*"
kameo = "*"
log = "*"
redis = "*"
serde = { version = "1", features = ["derive"] }
serde_json = "1"
tokio = { version = "1", features = ["full"] }
tokio-tungstenite = { version = "*", features = ["rustls-tls-webpki-roots"] }
url = "2"
