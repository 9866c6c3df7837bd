[package]
name = "tm_server_manager"
version = "0.1.0"
edition = "2021"
publish = false

[dependencies]
petgraph = "=0.8.3"
minilzo-rs = "=0.6.1"
base64 = "*"
flate2 = "=1.1.10"
log = "=0.4.35"
thiserror = "=2.0.21"
serde = { version = "=1.0.229", features = ["derive"] }
