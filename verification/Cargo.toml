[package]
name = "plonk_verifier_index"
version = "0.1.0"
edition = "2021"
publish = false

[dependencies]
ark-ff = "0.4"
ark-poly = "0.4"
ark-pallas = "0.4"
