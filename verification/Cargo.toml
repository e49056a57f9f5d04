[package]
name = "sui"
version = "0.1.0"
edition = "2021"
publish = false

[dependencies]
arrayvec = { version = "0.7", default-features = false }
hex = { version = "0.4", default-features = false }
num_enum = { version = "*", default-features = false }
ledger_device_sdk = "*"
ledger_secure_sdk_sys = "*"
include_gif = "*"
pin-cell = "*"
pin-project = "*"
defer = "*"
