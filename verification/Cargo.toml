[package]
name = "lunir"
version = "0.1.0"
edition = "2021"
publish = false

[dependencies]
anyhow = "1"
derive_builder = "*"
itertools = "*"
lifering = "*"
petgraph = "0.6"
