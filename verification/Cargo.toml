[package]
name = "hearth_engine"
version = "0.1.0"
edition = "2021"
publish = false

[dependencies]
bit-vec = "0.6"
regex = "1"
parking_lot = "0.12"
lazy_static = "1.4"
thiserror = "1"
serde = { version = "1", features = ["derive"] }
log = "0.4"
anyhow = "1"
cgmath = "0.18"
rand = "0.8"
bytemuck = { version = "1", features = ["derive"] }
