[package]
name = "fog_node"
version = "0.1.0"
edition = "2021"
publish = false

[dependencies]
dashmap = "=5.5.3"
uuid = { version = "=1.29.0", features = ["v4"] }
chrono = "=0.4.45"
base64 = "=0.13.1"
anyhow = "=1.0.104"
uom = { version = "=0.36.0", default-features = false, features = ["rational64", "bigrational", "si", "std"] }
num-rational = "=0.4.2"
lazy-regex = "3"
tokio = { version = "=1.54.1", features = ["full"] }
actix-web = "=4.18.1"
reqwest = { version = "=0.11.27", default-features = false, features = ["json", "rustls-tls"] }
serde = { version = "=1.0.229", features = ["derive"] }
serde_json = "=1.0.154"
tracing = "=0.1.44"
tracing-subscriber = "=0.3.23"
rand = "=0.8.8"
redis = { version = "=0.23.5", default-features = false }
