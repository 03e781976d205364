[package]
name = "eth_mac"
version = "0.1.0"
edition = "2021"
publish = false

[dependencies]
embassy-net = { version = "=0.9.1", default-features = false, features = ["medium-ethernet", "proto-ipv4", "tcp"] }
embassy-sync = "=0.8.0"

[dev-dependencies]
critical-section = { version = "1.2", features = ["std"] }
