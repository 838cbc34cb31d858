[package]
name = "decrypt_reveal"
version = "0.1.0"
edition = "2021"
publish = false

[dependencies]
encoding = "0.2"
rand = "0.8"
image = "0.24"
imageproc = "0.23"
rusttype = "0.9"
arguments = "*"
