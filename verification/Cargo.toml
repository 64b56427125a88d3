[package]
name = "evm_conformance"
version = "0.1.0"
edition = "2021"
publish = false

[dependencies]
hex = "0.4"
ethereum-types = "*"
evm = "*"
serde = { version = "1", features = ["derive"] }
serde_json = "1"
