[package]
name = "rooster_governor"
version = "0.1.0"
edition = "2021"
publish = false

[dependencies]
ink_env = "*"
blake2 = "*"
