[package]
name = "hummock_local_version"
version = "0.1.0"
edition = "2021"
publish = false

[dependencies]
parking_lot = { version = "0.12", features = ["arc_lock"] }
tokio = { version = "1", default-features = false, features = ["sync"] }
anyhow = "1"
async-trait = "0.1"
log = "0.4"
