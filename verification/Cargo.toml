[package]
name = "side_contracts"
version = "0.1.0"
edition = "2021"
publish = false

[dependencies]
cosmwasm-std = "1.5"
cosmwasm-schema = "1.5"
cw-storage-plus = "1.2"
cw2 = "1.1"
cw20 = "1.1"
cw20-base = { version = "1.1", features = ["library"] }
protobuf = "2"
rust_decimal = "1"
schemars = "0.8"
serde = { version = "1", features = ["derive"] }
sha2 = "0.10"
hex = "0.4"
thiserror = "1"
