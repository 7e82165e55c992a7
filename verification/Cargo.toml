[package]
name = "cw1_subkeys"
version = "0.1.0"
edition = "2021"
publish = false

[dependencies]
cosmwasm-std = "0.10"
cosmwasm-storage = "0.10"
cw1-whitelist = "0.1"
cw2 = "0.1"
cw20 = "0.1"
schemars = "0.7"
serde = { version = "1", features = ["derive"] }
