[package]
name = "memmem_bench"
version = "0.1.0"
edition = "2021"
publish = false

[dependencies]
memchr = "2"
criterion = { version = "*", default-features = false }
