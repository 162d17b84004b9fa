[package]
name = "pallet-contracts"
version = "0.1.0"
edition = "2021"
publish = false

[dependencies]
parity-scale-codec = "=3.7.5"
sp-runtime = "=49.0.0"
sp-weights = "=37.0.0"
smallvec = "=1.16.4"

[dev-dependencies]
sp-crypto-hashing = "=0.1.0"
