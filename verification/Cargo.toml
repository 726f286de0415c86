[package]
name = "luna_distributor"
version = "0.1.0"
edition = "2021"
publish = false

[dependencies]
anyhow = "=1.0.104"
cosmwasm-std = "=1.5.11"
cw-multi-test = "1.2"
schemars = "=0.8.22"
serde = { version = "1.0", features = ["derive"] }
