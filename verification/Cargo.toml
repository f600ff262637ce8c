[package]
name = "chain_registry"
version = "0.1.0"
edition = "2021"
publish = false

[dependencies]
alloy-primitives = "*"
bs58 = "*"
