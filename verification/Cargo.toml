[package]
name = "miniextendr_api"
version = "0.1.0"
edition = "2021"
publish = false

[dependencies]
arrow-array = { version = "*", default-features = false }
arrow-buffer = { version = "*", default-features = false }
arrow-schema = { version = "*", default-features = false }
