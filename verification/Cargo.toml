[package]
name = "avdl"
version = "0.1.0"
edition = "2021"
publish = false

[dependencies]
url = "=2.5.8"
regex = "=1.13.1"
dom_query = "=0.29.0"
serde = { version = "=1.0.229", features = ["derive"] }
serde_json = "=1.0.154"
aes = "=0.8.4"
cbc = "=0.1.2"
tokio = { version = "=1.54.1", features = ["full"] }
futures-util = "=0.3.34"
sysinfo = "=0.40.1"
sysproxy = "=0.3.0"
