[package]
name = "minimp4"
version = "0.1.0"
edition = "2021"
publish = false

[dependencies]
libc = "*"
minimp4-sys = "*"
