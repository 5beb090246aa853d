[package]
name = "prompt_hash"
version = "0.1.0"
edition = "2021"
publish = false

[dependencies]
soroban-sdk = "*"
stellar-access = "*"
stellar-macros = "*"
stellar-tokens = "*"

[dev-dependencies]
soroban-sdk = { version = "*", features = ["testutils"] }
