[package]
name = "colorfs"
version = "0.1.0"
edition = "2021"
publish = false

[dependencies]
image = { version = "0.22", default-features = false, features = ["png_codec"] }
time = "0.1"
libc = "0.2"
fuse_mt = "0.4"
