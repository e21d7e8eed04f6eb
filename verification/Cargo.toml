[package]
name = "bn_agent"
version = "0.1.0"
edition = "2021"
publish = false

[dependencies]
actix = "=0.13.5"
actix-rt = "=2.15.0"
actix-web = "=4.18.1"
async-openai = "0.27"
chrono = "=0.4.45"
csv = "=1.4.0"
dotenvy = "=0.15.7"
fern = "=0.6.2"
futures-executor = "=0.3.34"
futures-util = "=0.3.34"
libloading = "=0.8.9"
log = "=0.4.35"
parking_lot = "=0.12.5"
rand = "=0.8.8"
reqwest = { version = "=0.12.28", default-features = false, features = ["json", "stream", "rustls-tls"] }
rusqlite = { version = "=0.31.0", features = ["bundled"] }
serde = { version = "=1.0.229", features = ["derive"] }
serde_json = "=1.0.154"
tokio = { version = "=1.54.1", features = ["full"] }
tracing = "=0.1.44"
tracing-subscriber = { version = "=0.3.23", features = ["env-filter"] }
uuid = { version = "=1.29.0", features = ["v4"] }
