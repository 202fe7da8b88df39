[package]
name = "latency_collector"
version = "0.1.0"
edition = "2021"
publish = false

[dependencies]
bincode = "=1.3.3"
clap = { version = "=4.6.7", default-features = false, features = ["derive", "std"] }
env_logger = "=0.9.3"
reqwest = { version = "=0.11.27", default-features = false, features = ["json", "rustls-tls"] }
serde_json = "=1.0.154"
solana-entry = "=1.18.26"
solana-sdk = "=1.18.26"
tokio = { version = "=1.54.1", features = ["macros", "rt-multi-thread", "time"] }
tonic = { version = "=0.11.0", default-features = false, features = ["transport", "codegen", "prost"] }
