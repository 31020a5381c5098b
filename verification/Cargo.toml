[package]
name = "revm_core"
version = "0.1.0"
edition = "2021"
publish = false

[dependencies]
primitive-types = "=0.14.0"
sha3 = "=0.12.0"
revm_precompiles = "=1.1.2"
