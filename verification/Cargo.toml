[package]
name = "vlcsync"
version = "0.1.0"
edition = "2021"
publish = false

[dependencies]
rand = "=0.7.3"
base64 = "=0.12.3"
url = "=2.5.8"
log = "=0.4.35"
tokio = { version = "=0.2.25", features = ["full"] }
futures = "=0.3.34"
clap = "=2.34.0"
crossbeam = "=0.7.3"
serde = { version = "=1.0.229", features = ["derive"] }
serde_json = "=1.0.154"
lazy_static = "=1.5.1"
stun_codec = "=0.1.13"
bytecodec = "=0.4.15"
igd = { version = "=0.11.1", features = ["aio"] }
hyper = "=0.13.10"
headless_chrome = "0.9"
mpris = "2"
web-view = "0.7"
