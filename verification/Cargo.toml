[package]
name = "autorujira"
version = "0.1.0"
edition = "2021"
publish = false

[dependencies]
cosmwasm-std = { version = "2", features = ["stargate"] }
cosmwasm-schema = "2"
cw-storage-plus = "2"
cw-utils = "2"
anybuf = "*"
serde = { version = "1", features = ["derive"] }
serde_json = "1"
thiserror = "*"
schemars = "0.8"
rujira-rs = "*"
