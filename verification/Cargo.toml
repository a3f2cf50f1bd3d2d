[package]
name = "klvmeta"
version = "0.1.0"
edition = "2021"
publish = false

[dependencies]
gstreamer = "=0.19.8"
gstreamer-base = "=0.19.3"
gstreamer-app = "=0.19.6"
anyhow = "=1.0.104"
derive_more = "=0.99.20"
env_logger = "=0.10.2"
log = "=0.4.34"
once_cell = "=1.21.4"
parking_lot = "=0.12.5"
signal-hook = "=0.3.18"
structopt = "=0.3.26"

[dev-dependencies]
serde = "=1.0.229"
serde_klv = "=0.3.0"
