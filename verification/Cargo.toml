[package]
name = "claudiofsr_lib"
version = "0.1.0"
edition = "2021"
publish = false

[dependencies]
blake3 = "*"
chrono = "*"
ilog = "*"
indicatif = "*"
itertools = "*"
rust_decimal = "*"
