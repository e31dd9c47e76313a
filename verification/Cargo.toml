[package]
name = "universal_scanner"
version = "0.1.0"
edition = "2021"
publish = false

[dependencies]
anyhow = "=1.0.104"
base64 = "=0.22.1"
chrono = "=0.4.45"
clap = { version = "=4.6.7", features = ["derive"] }
if-addrs = "=0.15.0"
owo-colors = "=4.4.0"
pcap = "=2.5.0"
serde = { version = "=1.0.229", features = ["derive"] }
serde_json = "=1.0.154"
socket2 = "=0.5.10"
thiserror = "=1.0.69"
tokio = { version = "=1.54.1", features = ["rt-multi-thread", "macros", "net", "sync", "time", "signal"] }
tokio-util = "=0.7.20"
toml = "=0.8.23"
uuid = { version = "=1.29.0", features = ["v4"] }
