[package]
name = "domain_registry"
version = "0.1.0"
edition = "2021"
publish = false

[dependencies]
ink = "4"
