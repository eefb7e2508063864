[package]
name = "xqtum"
version = "0.1.0"
edition = "2021"
publish = false

[dependencies]
cosmwasm-schema = "2"
cosmwasm-std = "2"
cw2 = "2"
cw20 = "2"
cw20-base = { version = "2", features = ["library"] }
cw-controllers = "2"
cw-storage-plus = "2"
