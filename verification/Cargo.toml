[package]
name = "iid"
version = "0.1.0"
edition = "2021"
publish = false

[dependencies]
byteorder = "1"
rand = "0.8"
regex = "1"
rsntp = "4"
