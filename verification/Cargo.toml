[package]
name = "intersolar"
version = "0.1.0"
edition = "2021"
publish = false

[dependencies]
spl-token = "*"
mpl-token-metadata = "*"
solana-program = "*"
solana-program-pack = "*"
