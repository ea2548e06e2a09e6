[package]
name = "finality-aleph"
version = "0.1.0"
edition = "2021"
publish = false

[dependencies]
parity-scale-codec = "3.6"
lru = "0.12"
rand = "0.8"
