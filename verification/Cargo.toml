[package]
name = "plonk"
version = "0.1.0"
edition = "2021"
publish = false

[dependencies]
blake2 = "0.10"
digest = "0.10"
