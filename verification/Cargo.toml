[package]
name = "authchain"
version = "0.1.0"
edition = "2021"
publish = false

[dependencies]
ethers-core = "2"
ethers-signers = "2"
hex = "0.4"
serde = "1"
serde_json = "1"
anyhow = "1"
