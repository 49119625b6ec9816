[package]
name = "xva"
version = "0.1.0"
edition = "2021"
publish = false

[dependencies]
im = "*"
sha2 = "*"
ariadne = "*"
