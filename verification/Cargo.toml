[package]
name = "sangam"
version = "0.1.0"
edition = "2021"
publish = false

[dependencies]
tokio = { version = "1", features = ["sync", "rt-multi-thread", "macros", "net", "io-util", "time", "signal"] }
serde = { version = "1", features = ["derive"] }
serde_json = "1"
uuid = { version = "1", features = ["v4"] }
local-ip-address = "0.6"
mdns-sd = "0.13"
sysinfo = "0.32"
thiserror = "2"
