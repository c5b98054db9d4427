[package]
name = "conical_inlet"
version = "0.1.0"
edition = "2021"
publish = false

[dependencies]
csv = "*"
nalgebra = "*"
plotters = "*"
