[package]
name = "vrtest"
version = "0.1.0"
edition = "2021"
publish = false

[dependencies]
parity-scale-codec = "*"
gprimitives = "*"
gear-core = "*"
gear-core-errors = "*"
primitive-types = "*"
scale-info = "*"
