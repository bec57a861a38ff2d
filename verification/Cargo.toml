[package]
name = "my_contract"
version = "0.1.0"
edition = "2021"
publish = false

[dependencies]
concordium-std = "*"
serde_json = "1"
