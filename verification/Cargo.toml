[package]
name = "aplo_node"
version = "0.1.0"
edition = "2021"
publish = false

[dependencies]
tokio-util = { version = "=0.7.20", features = ["codec", "net"] }
tokio = { version = "=1.54.1", features = ["full"] }
serde = { version = "=1.0.229", features = ["derive"] }
serde_json = "=1.0.154"
futures = "=0.3.34"
eyre = "=0.6.14"
clap = { version = "=4.6.7", features = ["derive"] }
once_cell = "=1.21.4"
thiserror = "=1.0.69"
tracing = "=0.1.44"
tracing-appender = "=0.2.5"
tracing-subscriber = { version = "=0.3.23", features = ["env-filter"] }
alloy-primitives = "=1.7.3"
secp256k1 = { version = "=0.29.1", features = ["rand-std", "global-context"] }
