[package]
name = "pictorus_core_blocks"
version = "0.1.0"
edition = "2021"
publish = false

[dependencies]
byteorder = "1"
miniserde = "0.1"
nalgebra = "0.33"
num-traits = "0.2"
