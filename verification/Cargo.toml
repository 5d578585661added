[package]
name = "full_history_avd"
version = "0.1.0"
edition = "2021"
publish = false

[dependencies]
rand = "=0.7.3"
ark-ff = "=0.2.0"
ark-crypto-primitives = "=0.2.0"
ark-ed-on-bls12-381 = "=0.2.0"
