[package]
name = "bitcoin_rpc_provider"
version = "0.1.0"
edition = "2021"
publish = false

[dependencies]
bitcoin = { version = "=0.32.102", features = ["rand-std"] }
bitcoincore-rpc = "=0.19.0"
bitcoincore-rpc-json = "=0.19.0"
bitcoin-coin-selection = { version = "=0.9.0", features = ["rand"] }
