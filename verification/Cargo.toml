[package]
name = "custos_math"
version = "0.1.0"
edition = "2021"
publish = false

[dependencies]
custos = { version = "*", default-features = false, features = ["cpu"] }
