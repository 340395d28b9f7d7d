[package]
name = "cdfs"
version = "0.1.0"
edition = "2021"
publish = false

[dependencies]
encoding_rs = "0.8"

[dev-dependencies]
md5 = "0.7"
