[package]
name = "platformer_core"
version = "0.1.0"
edition = "2021"
publish = false

[dependencies]
nalgebra = "0.33"
specs = "0.10"
