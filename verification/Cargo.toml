[package]
name = "lily_contracts"
version = "0.1.0"
edition = "2021"
publish = false

[dependencies]
soroban-sdk = "22"
cosmwasm-std = "1.5"
cw-storage-plus = "1.2"
