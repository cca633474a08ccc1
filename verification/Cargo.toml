[package]
name = "axon_core"
version = "0.1.0"
edition = "2021"
publish = false

[dependencies]
arc-swap = "=1.9.3"
ckb-hash = "=1.1.1"
ckb-types = "=1.1.4"
evm = "0.33"
lazy_static = "=1.5.1"
rlp = "0.5"
tiny-keccak = { version = "=2.0.2", features = ["keccak"] }
