[package]
name = "qc_interop"
version = "0.1.0"
edition = "2021"
publish = false

[dependencies]
bytemuck = "*"
rust_decimal = "=1.43.0"
