[package]
name = "cex_core"
version = "0.1.0"
edition = "2021"
publish = false

[dependencies]
shared_memory = "0.12"
thiserror = "*"
anyhow = "1"
chrono = "0.4"
clap = { version = "4", features = ["derive"] }
csv = "1"
futures-util = { version = "0.3", features = ["sink"] }
log = "0.4"
parquet = { version = "*", default-features = false, features = ["snap"] }
serde = { version = "1", features = ["derive"] }
serde_json = "1"
tokio = { version = "1", features = ["full"] }
tokio-tungstenite = { version = "*", features = ["native-tls"] }
tracing = "0.1"
tracing-subscriber = "0.3"
zerocopy = { version = "0.8", features = ["derive"] }
