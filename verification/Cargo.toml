[package]
name = "athena_welcome"
version = "0.1.0"
edition = "2021"
publish = false

[dependencies]
gtk4 = "0.9"
image = { version = "0.24", default-features = false, features = ["png"] }
once_cell = "1"
libc = "0.2"
