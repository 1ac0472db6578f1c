[package]
name = "nft_renting"
version = "0.1.0"
edition = "2021"
publish = false

[dependencies]
bs58 = "0.4"
lite-json = "0.2"
parity-scale-codec = "3"
sp-core = "*"
sp-runtime = "*"
frame-support = "*"
