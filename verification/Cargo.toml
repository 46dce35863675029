[package]
name = "liquid_cycle"
version = "0.1.0"
edition = "2021"
publish = false

[dependencies]
itertools = "0.9"
liquid-core = "0.20"
liquid-error = "*"
liquid-interpreter = "*"
liquid-value = "*"
