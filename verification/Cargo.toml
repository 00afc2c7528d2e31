[package]
name = "zen_parser"
version = "0.1.0"
edition = "2021"
publish = false

[dependencies]
bumpalo = { version = "3", features = ["collections"] }
rust_decimal = { version = "1", default-features = false, features = ["std"] }
