[package]
name = "micast_broadcaster"
version = "0.1.0"
edition = "2021"
publish = false

[dependencies]
chrono = "0.4"
anyhow = "1"
log = "0.4"
serde = { version = "1", features = ["derive"] }
quick-xml = { version = "*", features = ["serialize"] }
crossbeam-channel = "0.5"
parking_lot = "0.12"
local-ip-address = "*"
