[package]
name = "gulfi"
version = "0.1.0"
edition = "2021"
publish = false

[dependencies]
ammonia = "=4.2.4"
blake2 = "=0.10.6"
serde = { version = "=1.0.229", features = ["derive"] }
serde_json = "=1.0.154"
clap = { version = "=4.6.7", features = ["derive"] }
rusqlite = { version = "=0.41.1", features = ["bundled"] }
chrono = "=0.4.45"
eyre = "=0.6.14"
thiserror = "=2.0.21"
rand = "=0.9.5"
argon2 = { version = "0.5", features = ["std"] }
tokio = { version = "1", features = ["rt-multi-thread", "macros", "sync", "time", "net"] }
axum = "0.7"
reqwest = { version = "0.12", default-features = false, features = ["json", "rustls-tls"] }
csv = "1"
crossbeam = "0.8"
serde_urlencoded = "0.7"
zerocopy = "0.8"
mime_guess = "2"
futures = "0.3"
sqlite-vec = "0.1"
