[package]
name = "png_indexed"
version = "0.1.0"
edition = "2021"
publish = false

[dependencies]
bitvec = "1"
png = "0.17"
