[package]
name = "ik_chain"
version = "0.1.0"
edition = "2021"
publish = false

[dependencies]
nalgebra = "*"
