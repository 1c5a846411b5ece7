[package]
name = "procapi"
version = "0.1.0"
edition = "2021"
publish = false

[dependencies]
libc = "*"
libproc = "*"
procfs = { version = "*", default-features = false }
