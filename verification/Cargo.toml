[package]
name = "integrity"
version = "0.1.0"
edition = "2021"
publish = false

[dependencies]
ring = "0.17"
data-encoding = "2"
flate2 = "1"
tar = "0.4"
