[package]
name = "rs_tg_nostr"
version = "0.1.0"
edition = "2021"
publish = false

[dependencies]
anyhow = "=1.0.104"
async-trait = "=0.1.92"
async-wsocket = "=0.13.2"
axum = "=0.8.9"
clap = { version = "=4.6.7", features = ["derive"] }
dotenvy = "=0.15.7"
nostr-relay-pool = "=0.44.3"
nostr-sdk = { version = "=0.44.1", features = ["nip59"] }
reqwest = { version = "=0.12.28", default-features = false, features = ["json", "rustls-tls"] }
serde = { version = "=1.0.229", features = ["derive"] }
serde_json = "=1.0.154"
tempfile = "=3.27.0"
tokio = { version = "=1.54.1", features = ["full"] }
tokio-tungstenite = { version = "=0.26.2", features = ["rustls-tls-webpki-roots"] }
tracing = "=0.1.44"
tracing-subscriber = { version = "=0.3.23", features = ["env-filter"] }
