[package]
name = "stellarzk-contracts"
version = "0.1.0"
edition = "2021"
publish = false

[dependencies]
soroban-sdk = "=28.0.0"
soroban-poseidon = "=28.0.0"

[dev-dependencies]
soroban-sdk = { version = "=28.0.0", features = ["testutils"] }
