[package]
name = "savereader"
version = "0.1.0"
edition = "2021"
publish = false

[dependencies]
aes = "0.8"
cbc = { version = "0.1", features = ["alloc", "block-padding"] }
cipher = { version = "0.4", features = ["alloc", "block-padding"] }
