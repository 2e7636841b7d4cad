[package]
name = "kernel_diag"
version = "0.1.0"
edition = "2021"
publish = false

[dependencies]
spin = "*"
lazy_static = "*"
bootloader_api = "*"
