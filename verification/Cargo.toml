[package]
name = "fetchline"
version = "0.1.0"
edition = "2021"
publish = false

[dependencies]
base64ct = { version = "=1.8.3", features = ["alloc"] }
sha1 = "=0.10.7"
serde = { version = "=1.0.229", features = ["derive"] }
serde_json = "=1.0.154"
serde-json-core = "=0.6.0"
log = "=0.4.35"
axum = { version = "=0.8.9", features = ["ws"] }
futures-util = { version = "=0.3.34", features = ["sink"] }
tokio = { version = "=1.54.1", features = ["macros", "rt-multi-thread", "net", "io-util", "sync", "time"] }
tokio-tungstenite = "=0.28.0"
embassy-futures = "*"
embassy-net = { version = "*", features = ["tcp", "dhcpv4", "medium-ethernet"] }
embassy-sync = "*"
embassy-time = "*"
embedded-graphics = "*"
embedded-io-async = "*"
