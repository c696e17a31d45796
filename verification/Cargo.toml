[package]
name = "final_compression"
version = "0.1.0"
edition = "2021"
publish = false

[dependencies]
bzip2 = "*"
flate2 = "*"
lz4 = "*"
rust-lzo = "*"
snap = "*"
urlencoding = "*"
xz2 = "*"
zstd = "*"
