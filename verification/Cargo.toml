[package]
name = "ufc"
version = "0.1.0"
edition = "2021"
publish = false

[dependencies]
blake3 = "=1.8.7"
sha2 = "=0.10.9"
uuid = { version = "=1.29.0", features = ["v4", "serde"] }
chrono = { version = "=0.4.45", features = ["serde"] }
semver = { version = "=1.0.28", features = ["serde"] }
serde = { version = "=1.0.229", features = ["derive"] }
serde_json = "=1.0.154"
num_cpus = "=1.17.0"
directories = "=5.0.1"
toml = "=0.8.23"
anyhow = "=1.0.104"
thiserror = "=1.0.69"
clap = { version = "=4.6.7", features = ["derive"] }
colored = "=2.2.0"
glob = "=0.3.4"
walkdir = "=2.5.0"
tokio = { version = "=1.54.1", features = ["rt-multi-thread", "macros", "sync"] }
tracing = "=0.1.44"
tracing-subscriber = { version = "=0.3.23", features = ["env-filter"] }
getrandom = "=0.4.3"
