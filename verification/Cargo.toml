[package]
name = "terraswap_token"
version = "0.1.0"
edition = "2021"
publish = false

[dependencies]
cosmwasm-std = "1"
cw2 = "1"
cw20 = "1"
cw20-base = { version = "1", features = ["library"] }
serde = { version = "1", default-features = false, features = ["derive"] }
