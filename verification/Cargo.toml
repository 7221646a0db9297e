[package]
name = "cpp_header_parser"
version = "0.1.0"
edition = "2021"
publish = false

[dependencies]
nom = "8.0"
nom-language = "0.1"

[dev-dependencies]
rand = "0.9"
