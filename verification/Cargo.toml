[package]
name = "octopus_relay"
version = "0.1.0"
edition = "2021"
publish = false

[dependencies]
hex = "0.4"
near-sdk = "3.1.0"
parity-scale-codec = { version = "2", features = ["derive"] }
