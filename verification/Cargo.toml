[package]
name = "hallouminate"
version = "0.1.0"
edition = "2021"
publish = false

[dependencies]
anyhow = "=1.0.104"
arrow = { version = "=60.1.0", default-features = false }
blake3 = "=1.8.7"
clap = { version = "=4.6.7", features = ["derive"] }
fastembed = { version = "=7.5.0", default-features = false, features = ["hf-hub-rustls-tls", "ort-load-dynamic"] }
futures = "=0.3.34"
interprocess = { version = "=2.4.7", features = ["tokio"] }
notify = "=8.2.1"
notify-debouncer-full = "=0.7.0"
rmcp = { version = "=3.8.0", features = ["server", "macros", "transport-io"] }
rusqlite = { version = "=0.41.1", features = ["bundled"] }
rustix = { version = "=1.1.6", features = ["fs", "process"] }
schemars = "=1.2.3"
serde = { version = "=1.0.229", features = ["derive"] }
serde_json = "=1.0.154"
shellexpand = "=3.1.2"
sqlite-vec = "=0.1.9"
tokio = { version = "=1.54.1", features = ["full"] }
tokio-util = "=0.7.20"
toml = "=0.9.12"
tracing = "=0.1.44"
tracing-appender = "=0.2.5"
tracing-subscriber = { version = "=0.3.23", features = ["env-filter"] }
