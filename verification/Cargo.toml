[package]
name = "fedimint_wallet"
version = "0.1.0"
edition = "2021"
publish = false

[dependencies]
bitcoin = "0.29"
miniscript = "9.0"
rand = "0.8"
