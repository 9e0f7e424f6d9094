[package]
name = "blast"
version = "0.1.0"
edition = "2021"
publish = false

[dependencies]
zstd = "=0.13.4"
blake3 = "=1.8.7"
hex = "=0.4.3"
regex = "=1.13.1"
regex-syntax = "=0.8.11"
serde = { version = "=1.0.229", features = ["derive"] }
serde_json = "=1.0.154"
toml = "=0.8.23"
tokio = { version = "=1.54.1", features = ["full"] }
dirs = "=5.0.1"
clap = { version = "=4.6.7", features = ["derive"] }
console = "=0.15.11"
tracing = "=0.1.44"
tracing-subscriber = { version = "=0.3.23", features = ["env-filter"] }
thiserror = "=1.0.69"
anyhow = "=1.0.104"
chrono = "=0.4.45"
uuid = { version = "=1.29.0", features = ["v4"] }
lru = "=0.12.5"
petgraph = "=0.6.5"
notify = "=6.1.1"
getrandom = "=0.4.3"
