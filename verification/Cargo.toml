[package]
name = "image_dds"
version = "0.1.0"
edition = "2021"
publish = false

[dependencies]
bcdec_rs = "*"
half = "*"
