[package]
name = "fluxa"
version = "0.1.0"
edition = "2021"
publish = false

[dependencies]
anyhow = "1"
crossterm = "0.28"
hostname = "0.4"
prost = "0.13"
ratatui = "0.29"
sysinfo = "0.30"
tokio = { version = "1", features = ["full"] }
tokio-stream = "0.1"
tonic = "0.12"
uuid = { version = "1", features = ["v4"] }
