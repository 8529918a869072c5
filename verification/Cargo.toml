[package]
name = "composition_harness"
version = "0.1.0"
edition = "2021"
publish = false

[dependencies]
wac-graph = "=0.12.0"

[dev-dependencies]
wat = "*"
