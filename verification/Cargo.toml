[package]
name = "servo_ws_net"
version = "0.1.0"
edition = "2021"
publish = false

[dependencies]
bytes = "=1.12.1"
futures = "=0.3.34"
headers = "=0.4.2"
http = "=1.5.0"
http-body-util = "=0.1.5"
hyper = "1"
ipc-channel = "*"
log = "=0.4.35"
parking_lot = "=0.12.5"
rustls = "=0.23.46"
rustls-pki-types = "=1.15.1"
serde = { version = "1", features = ["derive"] }
tokio = { version = "=1.54.1", features = ["rt-multi-thread", "sync", "macros"] }
tungstenite = "=0.30.0"
url = "=2.5.8"
