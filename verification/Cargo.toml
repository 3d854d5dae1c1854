[package]
name = "mpc_ledger"
version = "0.1.0"
edition = "2021"
publish = false

[dependencies]
hex = "0.4"
sha2 = "0.10"
serde = { version = "1", features = ["derive"] }
secret-cosmwasm-std = "*"
secret-toolkit = { version = "*", default-features = false, features = ["storage"] }
