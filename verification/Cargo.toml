[package]
name = "exa_substreams"
version = "0.1.0"
edition = "2021"
publish = false

[dependencies]
prost = "0.13"
substreams = "0.6"
substreams-ethereum = "0.10"
