[package]
name = "nexrad_archive"
version = "0.1.0"
edition = "2021"
publish = false

[dependencies]
anyhow = "1"
bzip2 = "*"
packed_struct = "*"
