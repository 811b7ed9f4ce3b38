[package]
name = "liquid_staking"
version = "0.1.0"
edition = "2021"
publish = false

[dependencies]
cosmwasm-std = "=2.3.5"
cosmwasm-schema = "=2.3.5"
cw-storage-plus = "=2.0.0"
cw-controllers = "=2.0.0"
osmosis-std = "=0.27.0"
