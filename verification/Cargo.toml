[package]
name = "concat"
version = "0.1.0"
edition = "2021"
publish = false

[dependencies]
slint = { version = "*", default-features = false, features = ["compat-1-2", "std"] }
